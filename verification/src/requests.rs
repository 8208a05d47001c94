use vstd::prelude::*;
use crate::api_error::{api_error_is, field_details, ApiError};
use crate::config::{opt_str_view, opt_view};
use crate::json::{empty_members, json_model, json_string, lex_lt, pairs_insert, put_member, Json, JsonV};
use crate::model::MaintenanceActionKind;
use crate::query_assets::{image_extension_for, infer_query_image_extension};
use crate::text::{chars_eq, chars_of, trim, trim_chars, string_of};

verus! {

/// Details that name the field in error.
pub open spec fn field_json(field: Seq<char>) -> JsonV {
    JsonV::Object(pairs_insert(seq![], "field"@, JsonV::Str(field)))
}

/// `e` is the validation error with this message and details.
pub open spec fn invalid_request(e: ApiError, message: Seq<char>, details: JsonV) -> bool {
    api_error_is(e, 422, "validation_failed"@, message, Some(details), false)
}

/// A boolean form field: `true` or `false` once trimmed.
pub fn parse_bool_form_field(field: &str, value: &str) -> (r: Result<bool, ApiError>)
    ensures
        trim(value@) == "true"@ ==> r == Ok::<bool, ApiError>(true),
        trim(value@) == "false"@ ==> r == Ok::<bool, ApiError>(false),
        trim(value@) != "true"@ && trim(value@) != "false"@ ==> (r matches Err(e) && invalid_request(
            e,
            "Boolean multipart field must be true or false."@,
            JsonV::Object(
                pairs_insert(pairs_insert(seq![], "field"@, JsonV::Str(field@)), "received"@, JsonV::Str(trim(value@))),
            ),
        )),
{
    let t = trim_chars(&chars_of(value));
    proof {
        reveal_strlit("true");
        reveal_strlit("false");
        assert("true"@[0] != "false"@[0]);
    }
    if chars_eq(&t, &chars_of("true")) {
        return Ok(true);
    }
    if chars_eq(&t, &chars_of("false")) {
        return Ok(false);
    }
    let mut d = empty_members();
    put_member(&mut d, "field", json_string(field));
    put_member(&mut d, "received", Json::Str(string_of(&t)));
    Err(ApiError::validation_failed("Boolean multipart field must be true or false.", Some(Json::Object(d))))
}

/// The least of a list of keys in key order, if any (the first key of a sorted map).
pub open spec fn least_key(keys: Seq<Seq<char>>) -> Option<Seq<char>>
    decreases keys.len(),
{
    if keys.len() == 0 {
        None
    } else {
        match least_key(keys.drop_last()) {
            None => Some(keys.last()),
            Some(k) => if lex_lt(keys.last(), k) { Some(keys.last()) } else { Some(k) },
        }
    }
}

fn first_key(keys: &Vec<String>) -> (r: Option<String>)
    ensures
        opt_view(r) == least_key(crate::json::string_views(keys@)),
{
    let ghost ks = crate::json::string_views(keys@);
    let mut best: Option<String> = None;
    let mut i: usize = 0;
    while i < keys.len()
        invariant
            i <= keys.len(),
            ks == crate::json::string_views(keys@),
            opt_view(best) == least_key(ks.take(i as int)),
        decreases keys.len() - i,
    {
        assert(ks.take(i + 1).drop_last() =~= ks.take(i as int));
        assert(ks[i as int] == keys@[i as int]@);
        best = match best {
            None => Some(keys[i].clone()),
            Some(b) => if crate::json::key_lt(&keys[i], &b) { Some(keys[i].clone()) } else { Some(b) },
        };
        i += 1;
    }
    assert(ks.take(keys.len() as int) =~= ks);
    best
}

fn contains_key(keys: &Vec<String>, k: &str) -> (r: bool)
    ensures
        r == crate::json::string_views(keys@).contains(k@),
{
    crate::ranking::contains_string(keys, &chars_of(k))
}

/// A request to create a library, with the names of any members it should not have.
#[derive(Debug)]
pub struct CreateLibraryApiRequest {
    pub library_id: Option<String>,
    pub display_name: String,
    pub extra_keys: Vec<String>,
}

/// A library creation that passed its checks.
#[derive(Debug)]
pub struct CreateLibraryRequest {
    pub library_id: Option<String>,
    pub display_name: String,
    pub name: String,
}

/// Checks a creation request: the legacy `name` member is refused with its own message,
/// any other unknown member (the least, in key order) as unsupported.
pub fn normalize_create_library_request(request: CreateLibraryApiRequest) -> (r: Result<CreateLibraryRequest, ApiError>)
    ensures
        ({
            let extra = crate::json::string_views(request.extra_keys@);
            if extra.contains("name"@) {
                r matches Err(e) && invalid_request(
                    e,
                    "Library name must be provided via display_name; the legacy name field is no longer accepted."@,
                    field_json("name"@),
                )
            } else if extra.len() > 0 {
                r matches Err(e) && invalid_request(
                    e,
                    "Create library request contains an unsupported field."@,
                    field_json(least_key(extra)->0),
                )
            } else {
                r matches Ok(c) && c.library_id == request.library_id && c.display_name == request.display_name
                    && c.name@ == ""@
            }
        }),
{
    if contains_key(&request.extra_keys, "name") {
        return Err(ApiError::validation_failed(
            "Library name must be provided via display_name; the legacy name field is no longer accepted.",
            Some(field_details("name")),
        ));
    }
    if let Some(field) = first_key(&request.extra_keys) {
        return Err(ApiError::validation_failed(
            "Create library request contains an unsupported field.",
            Some(field_details(field.as_str())),
        ));
    }
    proof {
        assert(crate::json::string_views(request.extra_keys@).len() == 0);
    }
    Ok(CreateLibraryRequest {
        library_id: request.library_id,
        display_name: request.display_name,
        name: "".to_owned(),
    })
}

/// A request to change a library, with the names of any members it should not have.
#[derive(Debug)]
pub struct UpdateLibraryApiRequest {
    pub display_name: Option<String>,
    pub extra_keys: Vec<String>,
}

/// Checks a change request: a library's id is stable, other unknown members are refused,
/// and a display name is required.
pub fn normalize_update_library_request(request: UpdateLibraryApiRequest) -> (r: Result<String, ApiError>)
    ensures
        ({
            let extra = crate::json::string_views(request.extra_keys@);
            if extra.contains("library_id"@) {
                r matches Err(e) && invalid_request(
                    e,
                    "Library identity is stable; PATCH /libraries/{library_id} only accepts display_name changes."@,
                    field_json("library_id"@),
                )
            } else if extra.len() > 0 {
                r matches Err(e) && invalid_request(
                    e,
                    "Update library request contains an unsupported field."@,
                    field_json(least_key(extra)->0),
                )
            } else {
                match request.display_name {
                    Some(n) => r matches Ok(x) && x == n,
                    None => r matches Err(e) && invalid_request(
                        e,
                        "Update library request requires display_name."@,
                        field_json("display_name"@),
                    ),
                }
            }
        }),
{
    if contains_key(&request.extra_keys, "library_id") {
        return Err(ApiError::validation_failed(
            "Library identity is stable; PATCH /libraries/{library_id} only accepts display_name changes.",
            Some(field_details("library_id")),
        ));
    }
    if let Some(field) = first_key(&request.extra_keys) {
        return Err(ApiError::validation_failed(
            "Update library request contains an unsupported field.",
            Some(field_details(field.as_str())),
        ));
    }
    proof {
        assert(crate::json::string_views(request.extra_keys@).len() == 0);
    }
    match request.display_name {
        Some(n) => Ok(n),
        None => Err(ApiError::validation_failed(
            "Update library request requires display_name.",
            Some(field_details("display_name")),
        )),
    }
}

/// Checks a maintenance request: its trimmed action must be a known one.
pub fn normalize_maintenance_action_request(action: &str) -> (r: Result<MaintenanceActionKind, ApiError>)
    ensures
        trim(action@).len() == 0 ==> (r matches Err(e) && invalid_request(
            e,
            "Maintenance action request requires action."@,
            field_json("action"@),
        )),
        trim(action@) == "cleanup_retired_vector_spaces"@ ==> r == Ok::<MaintenanceActionKind, ApiError>(
            MaintenanceActionKind::CleanupRetiredVectorSpaces,
        ),
        trim(action@).len() > 0 && trim(action@) != "cleanup_retired_vector_spaces"@ ==> (r matches Err(e)
            && invalid_request(
            e,
            "Maintenance action is not supported."@,
            JsonV::Object(
                pairs_insert(pairs_insert(seq![], "field"@, JsonV::Str("action"@)), "action"@, JsonV::Str(trim(action@))),
            ),
        )),
{
    let t = trim_chars(&chars_of(action));
    proof {
        reveal_strlit("cleanup_retired_vector_spaces");
    }
    if t.len() == 0 {
        return Err(ApiError::validation_failed("Maintenance action request requires action.", Some(field_details("action"))));
    }
    if chars_eq(&t, &chars_of("cleanup_retired_vector_spaces")) {
        return Ok(MaintenanceActionKind::CleanupRetiredVectorSpaces);
    }
    let mut d = empty_members();
    put_member(&mut d, "field", json_string("action"));
    put_member(&mut d, "action", Json::Str(string_of(&t)));
    Err(ApiError::validation_failed("Maintenance action is not supported.", Some(Json::Object(d))))
}


/// A file sent with a settings model test.
#[derive(Debug)]
pub struct PendingModelTestFile {
    pub original_filename: Option<String>,
    pub content_type: String,
    pub bytes: Vec<u8>,
}

/// The fields of a settings model test form read so far.
#[derive(Debug)]
pub struct ModelTestForm {
    pub provider_id: Option<String>,
    pub model_id: Option<String>,
    pub input_modality: Option<String>,
    pub comparison_input_modality: Option<String>,
    pub provider_enabled: Option<bool>,
    pub provider_base_url: Option<String>,
    pub text: Option<String>,
    pub comparison_text: Option<String>,
    pub file: Option<PendingModelTestFile>,
    pub comparison_file: Option<PendingModelTestFile>,
}

impl ModelTestForm {
    /// A form with nothing read yet.
    pub fn new() -> (r: ModelTestForm)
        ensures
            r.provider_id is None && r.model_id is None && r.input_modality is None,
            r.comparison_input_modality is None && r.provider_enabled is None && r.provider_base_url is None,
            r.text is None && r.comparison_text is None && r.file is None && r.comparison_file is None,
    {
        ModelTestForm {
            provider_id: None,
            model_id: None,
            input_modality: None,
            comparison_input_modality: None,
            provider_enabled: None,
            provider_base_url: None,
            text: None,
            comparison_text: None,
            file: None,
            comparison_file: None,
        }
    }
}

/// The text fields of a settings model test form.
pub open spec fn model_test_text_field(name: Seq<char>) -> bool {
    name == "provider_id"@ || name == "model_id"@ || name == "input_modality"@ || name == "comparison_input_modality"@
        || name == "provider_enabled"@ || name == "provider_base_url"@ || name == "text"@ || name == "comparison_text"@
}

/// How the next form field is to be read.
#[derive(Clone, Copy, Debug, PartialEq, Eq, Structural)]
pub enum ModelTestFieldRead {
    /// As text.
    Text,
    /// As a file.
    File,
    /// Not at all.
    Skip,
}

fn is_one_of(name: &Vec<char>, options: &[&str]) -> (r: bool)
    ensures
        r == exists|i: int| 0 <= i < options@.len() && name@ == options@[i]@,
{
    let mut i: usize = 0;
    while i < options.len()
        invariant
            i <= options@.len(),
            forall|j: int| 0 <= j < i ==> name@ != options@[j]@,
        decreases options@.len() - i,
    {
        if chars_eq(name, &chars_of(options[i])) {
            return true;
        }
        i += 1;
    }
    false
}

/// Decides how to read the field `name`: text fields as text, the two file fields as files
/// unless one was already read, anything else skipped unless it carries a file.
pub fn model_test_field_read(form: &ModelTestForm, name: &str, has_file_name: bool) -> (r: Result<
    ModelTestFieldRead,
    ApiError,
>)
    ensures
        model_test_text_field(name@) ==> r == Ok::<ModelTestFieldRead, ApiError>(ModelTestFieldRead::Text),
        name@ == "file"@ ==> if form.file is Some {
            r matches Err(e) && invalid_request(e, "Settings model test accepts exactly one file input."@, field_json("file"@))
        } else {
            r == Ok::<ModelTestFieldRead, ApiError>(ModelTestFieldRead::File)
        },
        name@ == "comparison_file"@ ==> if form.comparison_file is Some {
            r matches Err(e) && invalid_request(
                e,
                "Settings model test accepts exactly one comparison file input."@,
                field_json("comparison_file"@),
            )
        } else {
            r == Ok::<ModelTestFieldRead, ApiError>(ModelTestFieldRead::File)
        },
        !model_test_text_field(name@) && name@ != "file"@ && name@ != "comparison_file"@ ==> if has_file_name {
            r matches Err(e) && invalid_request(e, "Unexpected file field in settings model test form."@, field_json(name@))
        } else {
            r == Ok::<ModelTestFieldRead, ApiError>(ModelTestFieldRead::Skip)
        },
{
    let n = chars_of(name);
    let texts: [&str; 8] = [
        "provider_id",
        "model_id",
        "input_modality",
        "comparison_input_modality",
        "provider_enabled",
        "provider_base_url",
        "text",
        "comparison_text",
    ];
    proof {
        reveal_strlit("file");
        reveal_strlit("comparison_file");
        reveal_strlit("text");
        reveal_strlit("comparison_text");
        reveal_strlit("provider_id");
        reveal_strlit("model_id");
        reveal_strlit("input_modality");
        reveal_strlit("comparison_input_modality");
        reveal_strlit("provider_enabled");
        reveal_strlit("provider_base_url");
        assert("file"@[0] != "text"@[0]);
        assert("comparison_file"@[11] != "comparison_text"@[11]);
        assert(!model_test_text_field("file"@));
        assert("comparison_file"@ != "comparison_text"@);
        assert("comparison_file"@.len() == 15);
        assert("provider_id"@.len() == 11 && "model_id"@.len() == 8 && "input_modality"@.len() == 14);
        assert("comparison_input_modality"@.len() == 25 && "provider_enabled"@.len() == 16);
        assert("provider_base_url"@.len() == 17 && "text"@.len() == 4);
        assert(!model_test_text_field("comparison_file"@));
        assert("file"@ != "comparison_file"@);
    }
    let is_text = is_one_of(&n, &texts);
    assert(is_text == model_test_text_field(name@)) by {
        if model_test_text_field(name@) {
            if name@ == "provider_id"@ { assert(texts@[0]@ == name@); }
            if name@ == "model_id"@ { assert(texts@[1]@ == name@); }
            if name@ == "input_modality"@ { assert(texts@[2]@ == name@); }
            if name@ == "comparison_input_modality"@ { assert(texts@[3]@ == name@); }
            if name@ == "provider_enabled"@ { assert(texts@[4]@ == name@); }
            if name@ == "provider_base_url"@ { assert(texts@[5]@ == name@); }
            if name@ == "text"@ { assert(texts@[6]@ == name@); }
            if name@ == "comparison_text"@ { assert(texts@[7]@ == name@); }
        }
    }
    if is_text {
        return Ok(ModelTestFieldRead::Text);
    }
    if chars_eq(&n, &chars_of("file")) {
        if form.file.is_some() {
            return Err(ApiError::validation_failed(
                "Settings model test accepts exactly one file input.",
                Some(field_details("file")),
            ));
        }
        return Ok(ModelTestFieldRead::File);
    }
    if chars_eq(&n, &chars_of("comparison_file")) {
        if form.comparison_file.is_some() {
            return Err(ApiError::validation_failed(
                "Settings model test accepts exactly one comparison file input.",
                Some(field_details("comparison_file")),
            ));
        }
        return Ok(ModelTestFieldRead::File);
    }
    if has_file_name {
        return Err(ApiError::validation_failed(
            "Unexpected file field in settings model test form.",
            Some(field_details(name)),
        ));
    }
    Ok(ModelTestFieldRead::Skip)
}


/// The form with the text field `name` set to `value` (`provider_enabled` excepted).
pub open spec fn with_text_field(f: ModelTestForm, name: Seq<char>, value: String) -> ModelTestForm {
    if name == "provider_id"@ {
        ModelTestForm { provider_id: Some(value), ..f }
    } else if name == "model_id"@ {
        ModelTestForm { model_id: Some(value), ..f }
    } else if name == "input_modality"@ {
        ModelTestForm { input_modality: Some(value), ..f }
    } else if name == "comparison_input_modality"@ {
        ModelTestForm { comparison_input_modality: Some(value), ..f }
    } else if name == "provider_base_url"@ {
        ModelTestForm { provider_base_url: Some(value), ..f }
    } else if name == "text"@ {
        ModelTestForm { text: Some(value), ..f }
    } else if name == "comparison_text"@ {
        ModelTestForm { comparison_text: Some(value), ..f }
    } else {
        f
    }
}

/// Records a text field. `provider_enabled` must read `true` or `false`; a later value of
/// a field replaces an earlier one.
pub fn apply_model_test_text(form: &mut ModelTestForm, name: &str, value: String) -> (r: Result<(), ApiError>)
    requires
        model_test_text_field(name@),
    ensures
        name@ != "provider_enabled"@ ==> r is Ok && *final(form) == with_text_field(*old(form), name@, value),
        name@ == "provider_enabled"@ ==> match trim(value@) {
            t => if t == "true"@ || t == "false"@ {
                r is Ok && *final(form) == (ModelTestForm { provider_enabled: Some(t == "true"@), ..*old(form) })
            } else {
                r matches Err(e) && invalid_request(
                    e,
                    "Boolean multipart field must be true or false."@,
                    JsonV::Object(
                        pairs_insert(pairs_insert(seq![], "field"@, JsonV::Str(name@)), "received"@, JsonV::Str(t)),
                    ),
                ) && *final(form) == *old(form)
            },
        },
{
    proof {
        reveal_strlit("true");
        reveal_strlit("false");
        assert("true"@[0] != "false"@[0]);
    }
    let n = chars_of(name);
    if chars_eq(&n, &chars_of("provider_enabled")) {
        let b = parse_bool_form_field(name, value.as_str())?;
        form.provider_enabled = Some(b);
        return Ok(());
    }
    if chars_eq(&n, &chars_of("provider_id")) {
        form.provider_id = Some(value);
    } else if chars_eq(&n, &chars_of("model_id")) {
        form.model_id = Some(value);
    } else if chars_eq(&n, &chars_of("input_modality")) {
        form.input_modality = Some(value);
    } else if chars_eq(&n, &chars_of("comparison_input_modality")) {
        form.comparison_input_modality = Some(value);
    } else if chars_eq(&n, &chars_of("provider_base_url")) {
        form.provider_base_url = Some(value);
    } else if chars_eq(&n, &chars_of("text")) {
        form.text = Some(value);
    } else if chars_eq(&n, &chars_of("comparison_text")) {
        form.comparison_text = Some(value);
    }
    Ok(())
}

/// The content type recorded for a file sent without one.
pub open spec fn file_content_type(content_type: Option<String>) -> Seq<char> {
    match content_type {
        Some(c) => c@,
        None => "application/octet-stream"@,
    }
}

/// Records the file field `name` (`file` or `comparison_file`); a file sent without a
/// content type is taken as `application/octet-stream`.
pub fn apply_model_test_file(
    form: &mut ModelTestForm,
    name: &str,
    original_filename: Option<String>,
    content_type: Option<String>,
    bytes: Vec<u8>,
)
    requires
        name@ == "file"@ || name@ == "comparison_file"@,
    ensures
        ({
            let f = if name@ == "file"@ { final(form).file } else { final(form).comparison_file };
            f matches Some(p) && p.original_filename == original_filename && p.content_type@ == file_content_type(
                content_type,
            ) && p.bytes == bytes
        }),
        name@ == "file"@ ==> *final(form) == (ModelTestForm { file: final(form).file, ..*old(form) }),
        name@ != "file"@ ==> *final(form) == (ModelTestForm { comparison_file: final(form).comparison_file, ..*old(form) }),
{
    let ct = match content_type {
        Some(c) => c,
        None => "application/octet-stream".to_owned(),
    };
    let pending = PendingModelTestFile { original_filename, content_type: ct, bytes };
    if chars_eq(&chars_of(name), &chars_of("file")) {
        form.file = Some(pending);
    } else {
        form.comparison_file = Some(pending);
    }
}

/// A complete settings model test form.
#[derive(Debug)]
pub struct ParsedModelTestForm {
    pub provider_id: String,
    pub model_id: String,
    pub input_modality: String,
    pub comparison_input_modality: Option<String>,
    pub provider_enabled: Option<bool>,
    pub provider_base_url: Option<String>,
    pub text: Option<String>,
    pub comparison_text: Option<String>,
    pub file: Option<PendingModelTestFile>,
    pub comparison_file: Option<PendingModelTestFile>,
}

/// The form once every field was read: `provider_id`, `model_id` and `input_modality` are
/// required, in that order.
pub fn finish_model_test_form(form: ModelTestForm) -> (r: Result<ParsedModelTestForm, ApiError>)
    ensures
        match (form.provider_id, form.model_id, form.input_modality) {
            (None, _, _) => r matches Err(e) && invalid_request(
                e,
                "Settings model test requires provider_id."@,
                field_json("provider_id"@),
            ),
            (Some(_), None, _) => r matches Err(e) && invalid_request(
                e,
                "Settings model test requires model_id."@,
                field_json("model_id"@),
            ),
            (Some(_), Some(_), None) => r matches Err(e) && invalid_request(
                e,
                "Settings model test requires input_modality."@,
                field_json("input_modality"@),
            ),
            (Some(p), Some(m), Some(i)) => r matches Ok(x) && x.provider_id == p && x.model_id == m
                && x.input_modality == i && x.comparison_input_modality == form.comparison_input_modality
                && x.provider_enabled == form.provider_enabled && x.provider_base_url == form.provider_base_url
                && x.text == form.text && x.comparison_text == form.comparison_text && x.file == form.file
                && x.comparison_file == form.comparison_file,
        },
{
    let provider_id = match form.provider_id {
        Some(p) => p,
        None => return Err(ApiError::validation_failed(
            "Settings model test requires provider_id.",
            Some(field_details("provider_id")),
        )),
    };
    let model_id = match form.model_id {
        Some(m) => m,
        None => return Err(ApiError::validation_failed(
            "Settings model test requires model_id.",
            Some(field_details("model_id")),
        )),
    };
    let input_modality = match form.input_modality {
        Some(i) => i,
        None => return Err(ApiError::validation_failed(
            "Settings model test requires input_modality.",
            Some(field_details("input_modality")),
        )),
    };
    Ok(ParsedModelTestForm {
        provider_id,
        model_id,
        input_modality,
        comparison_input_modality: form.comparison_input_modality,
        provider_enabled: form.provider_enabled,
        provider_base_url: form.provider_base_url,
        text: form.text,
        comparison_text: form.comparison_text,
        file: form.file,
        comparison_file: form.comparison_file,
    })
}

/// An optional string as JSON: the string, or `null`.
pub open spec fn opt_text_json(o: Option<String>) -> JsonV {
    match o {
        Some(s) => JsonV::Str(s@),
        None => JsonV::Null,
    }
}

/// What a model test does with the file of one input: `Ok(None)` when there is none to
/// stage, `Ok(Some(extension))` for an image to stage under that extension, or the error
/// of a file that does not fit the input's modality.
pub open spec fn model_test_file_outcome(
    pending: Option<PendingModelTestFile>,
    input_modality: Seq<char>,
    file_field: Seq<char>,
    r: Result<Option<String>, ApiError>,
) -> bool {
    if input_modality == ""@ {
        if pending is Some {
            r matches Err(e) && invalid_request(
                e,
                "comparison_file requires comparison_input_modality."@,
                field_json(file_field),
            )
        } else {
            r == Ok::<Option<String>, ApiError>(None)
        }
    } else if input_modality == "text"@ {
        if pending is Some {
            r matches Err(e) && invalid_request(e, "text model test does not accept a file input."@, field_json(file_field))
        } else {
            r == Ok::<Option<String>, ApiError>(None)
        }
    } else if input_modality == "image"@ {
        match pending {
            None => r matches Err(e) && invalid_request(
                e,
                "image model test requires one file input."@,
                field_json(file_field),
            ),
            Some(f) => match image_extension_for(opt_view(f.original_filename), f.content_type@) {
                Some(ext) => r matches Ok(Some(x)) && x@ == ext,
                None => r matches Err(e) && invalid_request(
                    e,
                    "Only common image files are accepted as settings model test images right now."@,
                    JsonV::Object(
                        pairs_insert(
                            pairs_insert(
                                pairs_insert(seq![], "field"@, JsonV::Str(file_field)),
                                "content_type"@,
                                JsonV::Str(f.content_type@),
                            ),
                            "filename"@,
                            opt_text_json(f.original_filename),
                        ),
                    ),
                ),
            },
        }
    } else {
        r matches Err(e) && invalid_request(
            e,
            "input_modality must be one of the supported settings model input types."@,
            JsonV::Object(
                pairs_insert(
                    pairs_insert(
                        pairs_insert(seq![], "field"@, JsonV::Str("input_modality"@)),
                        "received"@,
                        JsonV::Str(input_modality),
                    ),
                    "supported"@,
                    JsonV::Array(seq![JsonV::Str("text"@), JsonV::Str("image"@)]),
                ),
            ),
        )
    }
}

/// See `model_test_file_outcome`; the image itself is written by the caller.
pub fn model_test_file_plan(pending: Option<&PendingModelTestFile>, input_modality: &str, file_field: &str) -> (r: Result<
    Option<String>,
    ApiError,
>)
    ensures
        model_test_file_outcome(
            match pending {
                Some(p) => Some(*p),
                None => None,
            },
            input_modality@,
            file_field@,
            r,
        ),
{
    proof {
        reveal_strlit("");
        reveal_strlit("text");
        reveal_strlit("image");
    }
    let m = chars_of(input_modality);
    if m.len() == 0 {
        assert(input_modality@ =~= ""@);
        if pending.is_some() {
            return Err(ApiError::validation_failed(
                "comparison_file requires comparison_input_modality.",
                Some(field_details(file_field)),
            ));
        }
        return Ok(None);
    }
    if chars_eq(&m, &chars_of("text")) {
        if pending.is_some() {
            return Err(ApiError::validation_failed(
                "text model test does not accept a file input.",
                Some(field_details(file_field)),
            ));
        }
        return Ok(None);
    }
    if chars_eq(&m, &chars_of("image")) {
        let f = match pending {
            None => return Err(ApiError::validation_failed(
                "image model test requires one file input.",
                Some(field_details(file_field)),
            )),
            Some(f) => f,
        };
        let name = match &f.original_filename {
            Some(n) => Some(n.as_str()),
            None => None,
        };
        return match infer_query_image_extension(name, f.content_type.as_str()) {
            Some(ext) => Ok(Some(ext)),
            None => {
                let mut d = empty_members();
                put_member(&mut d, "field", json_string(file_field));
                put_member(&mut d, "content_type", Json::Str(f.content_type.clone()));
                let filename = match &f.original_filename {
                    Some(n) => Json::Str(n.clone()),
                    None => Json::Null,
                };
                put_member(&mut d, "filename", filename);
                Err(ApiError::validation_failed(
                    "Only common image files are accepted as settings model test images right now.",
                    Some(Json::Object(d)),
                ))
            },
        };
    }
    let mut d = empty_members();
    put_member(&mut d, "field", json_string("input_modality"));
    put_member(&mut d, "received", json_string(input_modality));
    let mut supported: Vec<Json> = Vec::new();
    supported.push(json_string("text"));
    supported.push(json_string("image"));
    assert(crate::json::items_model(supported@) =~= seq![JsonV::Str("text"@), JsonV::Str("image"@)]);
    put_member(&mut d, "supported", Json::Array(supported));
    Err(ApiError::validation_failed(
        "input_modality must be one of the supported settings model input types.",
        Some(Json::Object(d)),
    ))
}

} // verus!
