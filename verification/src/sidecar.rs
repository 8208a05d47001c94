use vstd::prelude::*;
use crate::api_error::{api_error_is, details_model, field_details, ApiError};
use crate::config::{caps_is, caps_ok, decode_embedding_capabilities, opt_view, EmbeddingCapabilities};
use crate::envelope::{concat, join_strings, joined, text_or, views};
use crate::json::{get_member_of, items_model, json_model, member, pairs_insert, str_member, string_field, string_views, Json, JsonV};
use crate::provider::{
    local_sidecar_embedding_capabilities, local_sidecar_execution_input_types, strings_are,
    ProviderRuntimeModelSnapshot,
};
use crate::serve::ProcessEnv;
use crate::text::{append_str, chars_eq, chars_of, string_of, trim, trim_chars};

verus! {

/// The message of a service variable that is not set.
pub open spec fn missing_service_var_message(name: Seq<char>) -> Seq<char> {
    "Missing required environment variable "@ + name + "; source .env or use scripts/local/run.sh"@
}

/// `r` is the value of `name`, or the `runtime_unavailable` error that names it.
pub open spec fn service_var_is(env: ProcessEnv, name: Seq<char>, r: Result<String, ApiError>) -> bool {
    match env.var(name) {
        Some(v) => r matches Ok(s) && s@ == v,
        None => r matches Err(e) && api_error_is(
            e,
            503,
            "runtime_unavailable"@,
            missing_service_var_message(name),
            Some(JsonV::Object(pairs_insert(seq![], "field"@, JsonV::Str(name)))),
            true,
        ),
    }
}

/// A variable that the service cannot answer without.
pub fn read_required_env(env: &ProcessEnv, name: &str) -> (r: Result<String, ApiError>)
    ensures
        service_var_is(*env, name@, r),
{
    match env.get(name) {
        Some(v) => Ok(v),
        None => {
            let mut m = chars_of("Missing required environment variable ");
            append_str(&mut m, name);
            append_str(&mut m, "; source .env or use scripts/local/run.sh");
            Err(ApiError::runtime_unavailable(string_of(&m).as_str(), Some(field_details(name))))
        },
    }
}

/// The sidecar's address, from `SIDECAR_HOST` and `SIDECAR_PORT`.
pub fn sidecar_base_url(env: &ProcessEnv) -> (r: Result<String, ApiError>)
    ensures
        match (env.var("SIDECAR_HOST"@), env.var("SIDECAR_PORT"@)) {
            (Some(h), Some(p)) => r matches Ok(s) && s@ == "http://"@ + h + ":"@ + p,
            (None, _) => service_var_is(*env, "SIDECAR_HOST"@, r),
            (Some(_), None) => service_var_is(*env, "SIDECAR_PORT"@, r),
        },
{
    let host = read_required_env(env, "SIDECAR_HOST")?;
    let port = read_required_env(env, "SIDECAR_PORT")?;
    let mut m = chars_of("http://");
    append_str(&mut m, host.as_str());
    append_str(&mut m, ":");
    append_str(&mut m, port.as_str());
    Ok(string_of(&m))
}

/// Qdrant's address, from `QDRANT_URL`.
pub fn qdrant_base_url(env: &ProcessEnv) -> (r: Result<String, ApiError>)
    ensures
        service_var_is(*env, "QDRANT_URL"@, r),
{
    read_required_env(env, "QDRANT_URL")
}

/// The operations that the local sidecar must support to serve the app.
pub open spec fn required_operations() -> Seq<Seq<char>> {
    seq![
        "query_embedding"@,
        "image_query_embedding"@,
        "video_query_embedding"@,
        "document_query_embedding"@,
        "document_embedding"@,
    ]
}

/// See `required_operations`.
pub fn required_local_sidecar_operations() -> (r: Vec<String>)
    ensures
        string_views(r@) == required_operations(),
{
    let mut v: Vec<String> = Vec::new();
    v.push("query_embedding".to_owned());
    v.push("image_query_embedding".to_owned());
    v.push("video_query_embedding".to_owned());
    v.push("document_query_embedding".to_owned());
    v.push("document_embedding".to_owned());
    assert(string_views(v@) =~= required_operations());
    v
}

/// The string items of a list, others dropped.
pub open spec fn string_items(items: Seq<JsonV>) -> Seq<Seq<char>>
    decreases items.len(),
{
    if items.len() == 0 {
        seq![]
    } else {
        let rest = string_items(items.drop_last());
        match items.last() {
            JsonV::Str(s) => rest.push(s),
            _ => rest,
        }
    }
}

/// The string items of the array member `key`, or none.
pub open spec fn string_list(v: JsonV, key: Seq<char>) -> Seq<Seq<char>> {
    match member(v, key) {
        Some(JsonV::Array(items)) => string_items(items),
        _ => seq![],
    }
}

fn string_items_of(items: &Vec<Json>) -> (r: Vec<String>)
    ensures
        string_views(r@) == string_items(items_model(items@)),
{
    let ghost ms = items_model(items@);
    let mut out: Vec<String> = Vec::new();
    let mut i: usize = 0;
    while i < items.len()
        invariant
            i <= items.len(),
            ms == items_model(items@),
            ms.len() == items.len(),
            string_views(out@) == string_items(ms.take(i as int)),
        decreases items.len() - i,
    {
        assert(ms.take(i + 1).drop_last() =~= ms.take(i as int));
        assert(json_model(items@[i as int]) == ms[i as int]);
        match &items[i] {
            Json::Str(s) => {
                let ghost before = string_views(out@);
                out.push(s.clone());
                assert(string_views(out@) =~= before.push(s@));
            },
            _ => {},
        }
        i += 1;
    }
    assert(ms.take(items.len() as int) =~= ms);
    out
}

/// See `string_list`.
pub fn string_list_of(v: &Json, key: &str) -> (r: Vec<String>)
    ensures
        string_views(r@) == string_list(json_model(*v), key@),
{
    match get_member_of(v, key) {
        Some(Json::Array(items)) => string_items_of(items),
        _ => Vec::new(),
    }
}

/// The kinds of the operations marked `supported: true`, in order; operations without a
/// string kind are skipped.
pub open spec fn supported_kinds(ops: Seq<JsonV>) -> Seq<Seq<char>>
    decreases ops.len(),
{
    if ops.len() == 0 {
        seq![]
    } else {
        let rest = supported_kinds(ops.drop_last());
        let op = ops.last();
        if member(op, "supported"@) == Some(JsonV::Bool(true)) && str_member(op, "operation_kind"@) is Some {
            rest.push(str_member(op, "operation_kind"@)->0)
        } else {
            rest
        }
    }
}

/// The supported operations that a capabilities payload lists.
pub open spec fn supported_operations(payload: JsonV) -> Seq<Seq<char>> {
    match member(payload, "operations"@) {
        Some(JsonV::Array(ops)) => supported_kinds(ops),
        _ => seq![],
    }
}

/// See `supported_operations`.
pub fn supported_operations_of(payload: &Json) -> (r: Vec<String>)
    ensures
        string_views(r@) == supported_operations(json_model(*payload)),
{
    let ops = match get_member_of(payload, "operations") {
        Some(Json::Array(ops)) => ops,
        _ => return Vec::new(),
    };
    let ghost ms = items_model(ops@);
    let mut out: Vec<String> = Vec::new();
    let mut i: usize = 0;
    while i < ops.len()
        invariant
            i <= ops.len(),
            ms == items_model(ops@),
            ms.len() == ops.len(),
            string_views(out@) == supported_kinds(ms.take(i as int)),
        decreases ops.len() - i,
    {
        assert(ms.take(i + 1).drop_last() =~= ms.take(i as int));
        assert(json_model(ops@[i as int]) == ms[i as int]);
        let supported = match get_member_of(&ops[i], "supported") {
            Some(Json::Bool(b)) => *b,
            _ => false,
        };
        if supported {
            match string_field(&ops[i], "operation_kind") {
                Some(k) => {
                    let ghost before = string_views(out@);
                    out.push(k);
                    assert(string_views(out@) =~= before.push(str_member(ms[i as int], "operation_kind"@)->0));
                },
                None => {},
            }
        }
        i += 1;
    }
    assert(ms.take(ops.len() as int) =~= ms);
    out
}

fn contains_text(v: &Vec<String>, s: &str) -> (r: bool)
    ensures
        r == string_views(v@).contains(s@),
{
    crate::ranking::contains_string(v, &chars_of(s))
}

/// The query inputs a sidecar can execute, judged from its supported operations and
/// runtime adapters, in sorted order; when nothing is recognized, all four inputs.
pub open spec fn derived_input_types(payload: JsonV) -> Seq<Seq<char>> {
    let ops = supported_operations(payload);
    let adapters = string_list(payload, "runtime_adapters"@);
    let text = ops.contains("query_embedding"@);
    let image = ops.contains("image_query_embedding"@);
    let document = ops.contains("document_query_embedding"@) || adapters.contains("document_query_via_page_images"@);
    let video = ops.contains("video_query_embedding"@) || adapters.contains("video_query_via_frame_images"@);
    if !(text || image || document || video) {
        seq!["text"@, "image"@, "document"@, "video"@]
    } else {
        (if document { seq!["document"@] } else { seq![] }) + (if image { seq!["image"@] } else { seq![] }) + (if text {
            seq!["text"@]
        } else {
            seq![]
        }) + (if video { seq!["video"@] } else { seq![] })
    }
}

fn push_if(v: &mut Vec<String>, cond: bool, s: &str)
    ensures
        string_views(final(v)@) == string_views(old(v)@) + if cond { seq![s@] } else { Seq::<Seq<char>>::empty() },
{
    if cond {
        v.push(s.to_owned());
        assert(string_views(v@) =~= string_views(old(v)@) + seq![s@]);
    } else {
        assert(string_views(v@) =~= string_views(old(v)@) + Seq::<Seq<char>>::empty());
    }
}

/// See `derived_input_types`.
pub fn derive_execution_input_types_from_capabilities(payload: &Json) -> (r: Vec<String>)
    ensures
        string_views(r@) == derived_input_types(json_model(*payload)),
{
    let ops = supported_operations_of(payload);
    let adapters = string_list_of(payload, "runtime_adapters");
    let text = contains_text(&ops, "query_embedding");
    let image = contains_text(&ops, "image_query_embedding");
    let document = contains_text(&ops, "document_query_embedding") || contains_text(
        &adapters,
        "document_query_via_page_images",
    );
    let video = contains_text(&ops, "video_query_embedding") || contains_text(&adapters, "video_query_via_frame_images");
    if !(text || image || document || video) {
        return local_sidecar_execution_input_types();
    }
    let mut v: Vec<String> = Vec::new();
    push_if(&mut v, document, "document");
    push_if(&mut v, image, "image");
    push_if(&mut v, text, "text");
    push_if(&mut v, video, "video");
    assert(string_views(v@) =~= derived_input_types(json_model(*payload)));
    v
}

/// The outcome of the last probe of a provider.
#[derive(Debug)]
pub struct ProviderProbeSnapshot {
    pub status: String,
    pub message: String,
    pub last_probed_at: Option<String>,
}

/// What a probe of the local sidecar found.
#[derive(Debug)]
pub struct LocalSidecarProviderSnapshot {
    pub probe: ProviderProbeSnapshot,
    pub runtime_model: ProviderRuntimeModelSnapshot,
    pub embedding_capabilities: EmbeddingCapabilities,
    pub execution_input_types: Vec<String>,
    pub runtime_adapters: Vec<String>,
}

/// `s` is a probe snapshot with this status, message and time.
pub open spec fn probe_is(s: ProviderProbeSnapshot, status: Seq<char>, message: Seq<char>, now: Seq<char>) -> bool {
    s.status@ == status && s.message@ == message && opt_view(s.last_probed_at) == Some(now)
}

/// `c` holds the local sidecar's built-in capabilities.
pub open spec fn local_caps(c: EmbeddingCapabilities) -> bool {
    strings_are(c.input_types, seq!["text"@, "image"@]) && strings_are(
        c.vector_types,
        seq!["multi_vector_late_interaction"@],
    ) && !c.supports_mixed_inputs
}

/// The snapshot of a sidecar that could not be probed: unavailable with `message`, the
/// fallback model, the built-in capabilities and no inputs or adapters.
pub fn unavailable_sidecar_snapshot(message: &str, now: &str, fallback: ProviderRuntimeModelSnapshot) -> (r:
    LocalSidecarProviderSnapshot)
    ensures
        probe_is(r.probe, "runtime_unavailable"@, message@, now@),
        r.runtime_model == fallback,
        local_caps(r.embedding_capabilities),
        r.execution_input_types@.len() == 0,
        r.runtime_adapters@.len() == 0,
{
    LocalSidecarProviderSnapshot {
        probe: ProviderProbeSnapshot {
            status: "runtime_unavailable".to_owned(),
            message: message.to_owned(),
            last_probed_at: Some(now.to_owned()),
        },
        runtime_model: fallback,
        embedding_capabilities: local_sidecar_embedding_capabilities(),
        execution_input_types: Vec::new(),
        runtime_adapters: Vec::new(),
    }
}

/// The `model` member of the first operation that has one.
pub open spec fn first_model(ops: Seq<JsonV>) -> Option<JsonV>
    decreases ops.len(),
{
    if ops.len() == 0 {
        None
    } else {
        match member(ops[0], "model"@) {
            Some(m) => Some(m),
            None => first_model(ops.drop_first()),
        }
    }
}

/// The model the sidecar reports: from the first operation that names a model, its
/// `model_id` and `revision` where they are strings, the fallback's otherwise; the fallback
/// when no operation names one.
pub open spec fn reported_model_is(payload: JsonV, fallback: ProviderRuntimeModelSnapshot, r: ProviderRuntimeModelSnapshot) -> bool {
    let found = match member(payload, "operations"@) {
        Some(JsonV::Array(ops)) => first_model(ops),
        _ => None,
    };
    match found {
        Some(m) => r.model_id@ == text_or(m, "model_id"@, fallback.model_id@) && opt_view(r.model_revision) == match str_member(
            m,
            "revision"@,
        ) {
            Some(rev) => Some(rev),
            None => opt_view(fallback.model_revision),
        },
        None => r == fallback,
    }
}

fn reported_model(payload: &Json, fallback: ProviderRuntimeModelSnapshot) -> (r: ProviderRuntimeModelSnapshot)
    ensures
        reported_model_is(json_model(*payload), fallback, r),
{
    let ops = match get_member_of(payload, "operations") {
        Some(Json::Array(ops)) => ops,
        _ => return fallback,
    };
    let ghost ms = items_model(ops@);
    assert(member(json_model(*payload), "operations"@) == Some(JsonV::Array(ms)));
    let mut i: usize = 0;
    assert(ms.skip(0) =~= ms);
    while i < ops.len()
        invariant
            i <= ops.len(),
            ms == items_model(ops@),
            ms.len() == ops.len(),
            first_model(ms) == first_model(ms.skip(i as int)),
            member(json_model(*payload), "operations"@) == Some(JsonV::Array(ms)),
        decreases ops.len() - i,
    {
        assert(json_model(ops@[i as int]) == ms[i as int]);
        assert(ms.skip(i as int)[0] == ms[i as int]);
        assert(ms.skip(i as int).drop_first() =~= ms.skip(i + 1));
        if let Some(m) = get_member_of(&ops[i], "model") {
            assert(ms.skip(i as int).len() > 0);
            assert(first_model(ms.skip(i as int)) == Some(json_model(*m)));
            let model_id = match string_field(m, "model_id") {
                Some(id) => id,
                None => fallback.model_id,
            };
            let model_revision = match string_field(m, "revision") {
                Some(rev) => Some(rev),
                None => fallback.model_revision,
            };
            return ProviderRuntimeModelSnapshot { model_id, model_revision };
        }
        i += 1;
    }
    assert(ms.skip(ops.len() as int) =~= Seq::<JsonV>::empty());
    fallback
}

/// The capabilities a payload declares, when they decode and name some input and some
/// vector type; the built-in ones otherwise.
pub open spec fn declared_caps_is(payload: JsonV, c: EmbeddingCapabilities) -> bool {
    match member(payload, "embedding_capabilities"@) {
        Some(j) => if caps_ok(j) && exists|d: EmbeddingCapabilities|
            #![trigger caps_is(j, d)]
            caps_is(j, d) && d.input_types@.len() > 0 && d.vector_types@.len() > 0 {
            caps_is(j, c)
        } else {
            local_caps(c)
        },
        None => local_caps(c),
    }
}

fn declared_caps(payload: &Json) -> (r: EmbeddingCapabilities)
    ensures
        declared_caps_is(json_model(*payload), r),
{
    match get_member_of(payload, "embedding_capabilities") {
        Some(j) => match decode_embedding_capabilities(j) {
            Ok(c) => {
                if c.input_types.len() > 0 && c.vector_types.len() > 0 {
                    c
                } else {
                    proof {
                        assert forall|d: EmbeddingCapabilities| caps_is(json_model(*j), d) implies !(d.input_types@.len()
                            > 0 && d.vector_types@.len() > 0) by {
                            assert(string_views(d.input_types@) == string_views(c.input_types@));
                            assert(string_views(d.vector_types@) == string_views(c.vector_types@));
                            assert(string_views(d.input_types@).len() == d.input_types@.len());
                            assert(string_views(c.input_types@).len() == c.input_types@.len());
                            assert(string_views(d.vector_types@).len() == d.vector_types@.len());
                            assert(string_views(c.vector_types@).len() == c.vector_types@.len());
                        }
                    }
                    local_sidecar_embedding_capabilities()
                }
            },
            Err(_) => local_sidecar_embedding_capabilities(),
        },
        None => local_sidecar_embedding_capabilities(),
    }
}

/// The execution inputs a payload declares when it lists any string input, else those
/// derived from its operations.
pub open spec fn declared_inputs(payload: JsonV) -> Seq<Seq<char>> {
    match member(payload, "execution_input_types"@) {
        Some(JsonV::Array(items)) => if string_items(items).len() > 0 {
            string_items(items)
        } else {
            derived_input_types(payload)
        },
        _ => derived_input_types(payload),
    }
}

/// The member at `availability.key` of a payload.
pub open spec fn availability(payload: JsonV, key: Seq<char>) -> Option<JsonV> {
    match member(payload, "availability"@) {
        Some(a) => member(a, key),
        None => None,
    }
}

/// The message of a sidecar that cannot service requests: its non-blank load error, or a
/// default sentence.
pub open spec fn cannot_service_message(payload: JsonV) -> Seq<char> {
    match availability(payload, "load_error"@) {
        Some(JsonV::Str(e)) => if trim(e).len() > 0 {
            e
        } else {
            "local_sidecar runtime reported that it cannot currently service requests."@
        },
        _ => "local_sidecar runtime reported that it cannot currently service requests."@,
    }
}

/// The required operations that a list of supported ones lacks, in order.
pub open spec fn missing_from(required: Seq<Seq<char>>, supported: Seq<Seq<char>>) -> Seq<Seq<char>> {
    required.filter(|op: Seq<char>| !supported.contains(op))
}

/// The verdict of a probe whose capabilities payload parsed: unavailable when the sidecar
/// says it cannot service requests or lacks a required operation, else available.
pub open spec fn probe_verdict(payload: JsonV) -> (Seq<char>, Seq<char>) {
    if availability(payload, "can_service"@) != Some(JsonV::Bool(true)) {
        ("runtime_unavailable"@, cannot_service_message(payload))
    } else if missing_from(required_operations(), supported_operations(payload)).len() > 0 {
        (
            "runtime_unavailable"@,
            "local_sidecar runtime is missing required operations: "@ + joined(
                missing_from(required_operations(), supported_operations(payload)),
                ", "@,
            ) + "."@,
        )
    } else {
        ("available"@, "local_sidecar runtime is available for 5 required operation(s)."@)
    }
}

fn missing_operations(supported: &Vec<String>) -> (r: Vec<String>)
    ensures
        string_views(r@) == missing_from(required_operations(), string_views(supported@)),
{
    let required = required_local_sidecar_operations();
    let ghost req = string_views(required@);
    let ghost sup = string_views(supported@);
    let mut out: Vec<String> = Vec::new();
    let mut i: usize = 0;
    while i < required.len()
        invariant
            i <= required.len(),
            req == string_views(required@),
            req == required_operations(),
            sup == string_views(supported@),
            string_views(out@) == req.take(i as int).filter(|op: Seq<char>| !sup.contains(op)),
        decreases required.len() - i,
    {
        let ghost before = string_views(out@);
        proof {
            let t = req.take(i + 1);
            assert(t.drop_last() =~= req.take(i as int));
            reveal(Seq::filter);
        }
        if !contains_text(supported, required[i].as_str()) {
            out.push(required[i].clone());
            assert(string_views(out@) =~= before.push(req[i as int]));
        }
        i += 1;
    }
    assert(req.take(required.len() as int) =~= req);
    out
}

/// The snapshot of a sidecar whose capabilities payload parsed (see `probe_verdict`,
/// `reported_model_is`, `declared_caps_is`, `declared_inputs`).
pub fn sidecar_snapshot_from_capabilities(payload: &Json, now: &str, fallback: ProviderRuntimeModelSnapshot) -> (r:
    LocalSidecarProviderSnapshot)
    ensures
        probe_is(r.probe, probe_verdict(json_model(*payload)).0, probe_verdict(json_model(*payload)).1, now@),
        reported_model_is(json_model(*payload), fallback, r.runtime_model),
        declared_caps_is(json_model(*payload), r.embedding_capabilities),
        string_views(r.execution_input_types@) == declared_inputs(json_model(*payload)),
        string_views(r.runtime_adapters@) == string_list(json_model(*payload), "runtime_adapters"@),
{
    let runtime_model = reported_model(payload, fallback);
    let embedding_capabilities = declared_caps(payload);
    let runtime_adapters = string_list_of(payload, "runtime_adapters");
    let declared = string_list_of(payload, "execution_input_types");
    let execution_input_types = match get_member_of(payload, "execution_input_types") {
        Some(Json::Array(_)) => {
            if declared.len() > 0 {
                declared
            } else {
                derive_execution_input_types_from_capabilities(payload)
            }
        },
        _ => derive_execution_input_types_from_capabilities(payload),
    };
    let can_service = match get_member_of(payload, "availability") {
        Some(a) => match get_member_of(a, "can_service") {
            Some(Json::Bool(b)) => *b,
            _ => false,
        },
        None => false,
    };
    let message: String = if !can_service {
        let load_error = match get_member_of(payload, "availability") {
            Some(a) => match get_member_of(a, "load_error") {
                Some(Json::Str(e)) => Some(e.clone()),
                _ => None,
            },
            None => None,
        };
        match load_error {
            Some(e) => {
                if trim_chars(&chars_of(e.as_str())).len() > 0 {
                    e
                } else {
                    "local_sidecar runtime reported that it cannot currently service requests.".to_owned()
                }
            },
            None => "local_sidecar runtime reported that it cannot currently service requests.".to_owned(),
        }
    } else {
        let supported = supported_operations_of(payload);
        let missing = missing_operations(&supported);
        if missing.len() > 0 {
            let list = join_strings(&missing, ", ");
            let mut m = chars_of("local_sidecar runtime is missing required operations: ");
            append_str(&mut m, list.as_str());
            append_str(&mut m, ".");
            string_of(&m)
        } else {
            "local_sidecar runtime is available for 5 required operation(s).".to_owned()
        }
    };
    let status = if !can_service {
        "runtime_unavailable"
    } else {
        let supported = supported_operations_of(payload);
        let missing = missing_operations(&supported);
        if missing.len() > 0 { "runtime_unavailable" } else { "available" }
    };
    LocalSidecarProviderSnapshot {
        probe: ProviderProbeSnapshot { status: status.to_owned(), message, last_probed_at: Some(now.to_owned()) },
        runtime_model,
        embedding_capabilities,
        execution_input_types,
        runtime_adapters,
    }
}

/// The message of a sidecar error body that parsed as JSON: `Sidecar code: message` when it
/// carries an `error` object with string `code` and `message`.
pub open spec fn sidecar_error_text(body: JsonV) -> Option<Seq<char>> {
    match member(body, "error"@) {
        Some(e) => match (str_member(e, "code"@), str_member(e, "message"@)) {
            (Some(c), Some(m)) => Some("Sidecar "@ + c + ": "@ + m),
            _ => None,
        },
        None => None,
    }
}

/// See `sidecar_error_text`; a body that did not parse gives nothing.
pub fn parse_sidecar_error_message(body: Option<&Json>) -> (r: Option<String>)
    ensures
        match body {
            Some(b) => opt_view(r) == sidecar_error_text(json_model(*b)),
            None => r is None,
        },
{
    let b = match body {
        Some(b) => b,
        None => return None,
    };
    let e = match get_member_of(b, "error") {
        Some(e) => e,
        None => return None,
    };
    match (string_field(e, "code"), string_field(e, "message")) {
        (Some(c), Some(m)) => {
            let mut t = chars_of("Sidecar ");
            append_str(&mut t, c.as_str());
            append_str(&mut t, ": ");
            append_str(&mut t, m.as_str());
            Some(string_of(&t))
        },
        _ => None,
    }
}

} // verus!
