use vstd::prelude::*;
use crate::api_error::{api_error_is, field_details, ApiError};
use crate::config::{join_path, opt_str_view, opt_view};
use crate::json::{empty_members, json_string, pairs_insert, put_member, Json, JsonV};
use crate::query_assets::{
    document_extension_for, image_extension_for, infer_query_document_extension,
    infer_query_image_extension, infer_query_video_extension, video_extension_for,
};
use crate::requests::{field_json, invalid_request, opt_text_json};
use crate::serve::ProcessEnv;
use crate::sidecar::{read_required_env, service_var_is};
use crate::text::{append_str, chars_of, string_of};

verus! {

/// The kind of file a query upload carries.
#[derive(Clone, Copy, Debug, PartialEq, Eq, Structural)]
pub enum QueryMediaKind {
    Image,
    Video,
    Document,
}

/// A query file as received.
#[derive(Debug)]
pub struct IncomingQueryUpload {
    pub bytes: Vec<u8>,
    pub content_type: String,
    pub original_filename: Option<String>,
    pub extension: String,
}

/// The extension a query file of `kind` is stored under, judged from its name and type.
pub open spec fn upload_extension(kind: QueryMediaKind, filename: Option<Seq<char>>, content_type: Seq<char>) -> Option<Seq<char>> {
    match kind {
        QueryMediaKind::Image => image_extension_for(filename, content_type),
        QueryMediaKind::Video => video_extension_for(filename, content_type),
        QueryMediaKind::Document => document_extension_for(filename, content_type),
    }
}

/// The message of a file that is not of the kind.
pub open spec fn unsupported_message(kind: QueryMediaKind) -> Seq<char> {
    match kind {
        QueryMediaKind::Image => "Only common image files are accepted as query images right now."@,
        QueryMediaKind::Video => "Only mp4, mov, or m4v files are accepted as query videos right now."@,
        QueryMediaKind::Document => "Only PDF files are accepted as query documents right now."@,
    }
}

/// The message of an empty file.
pub open spec fn empty_message(kind: QueryMediaKind) -> Seq<char> {
    match kind {
        QueryMediaKind::Image => "Query image upload must not be empty."@,
        QueryMediaKind::Video => "Query video upload must not be empty."@,
        QueryMediaKind::Document => "Query document upload must not be empty."@,
    }
}

/// The message of a second file.
pub open spec fn duplicate_message(kind: QueryMediaKind) -> Seq<char> {
    match kind {
        QueryMediaKind::Image => "Current 110-image-search implementation accepts exactly one query image per upload."@,
        QueryMediaKind::Video => "Current 120-video-search implementation accepts exactly one query video per upload."@,
        QueryMediaKind::Document => "Current 130-document-search implementation accepts exactly one query document per upload."@,
    }
}

/// The message of an upload without a file.
pub open spec fn missing_message(kind: QueryMediaKind) -> Seq<char> {
    match kind {
        QueryMediaKind::Image => "Query image upload requires one image file part."@,
        QueryMediaKind::Video => "Query video upload requires one video file part."@,
        QueryMediaKind::Document => "Query document upload requires one document file part."@,
    }
}

/// The content type of a part, `application/octet-stream` when it names none.
pub open spec fn part_content_type(content_type: Option<Seq<char>>) -> Seq<char> {
    match content_type {
        Some(c) => c,
        None => "application/octet-stream"@,
    }
}

/// The details of a refused part.
pub open spec fn part_details(content_type: Seq<char>, filename: Option<Seq<char>>) -> JsonV {
    JsonV::Object(
        pairs_insert(
            pairs_insert(pairs_insert(seq![], "field"@, JsonV::Str("file"@)), "content_type"@, JsonV::Str(content_type)),
            "filename"@,
            match filename {
                Some(f) => JsonV::Str(f),
                None => JsonV::Null,
            },
        ),
    )
}

/// Judges a part from its name and type, before its body is read: the content type it is
/// taken with and the extension it is stored under, or the refusal.
pub fn query_part_extension(kind: QueryMediaKind, filename: Option<&str>, content_type: Option<&str>) -> (r: Result<
    (String, String),
    ApiError,
>)
    ensures
        ({
            let ct = part_content_type(opt_str_view(content_type));
            match upload_extension(kind, opt_str_view(filename), ct) {
                Some(e) => r matches Ok((c, x)) && c@ == ct && x@ == e,
                None => r matches Err(err) && invalid_request(
                    err,
                    unsupported_message(kind),
                    part_details(ct, opt_str_view(filename)),
                ),
            }
        }),
{
    let ct = match content_type {
        Some(c) => c.to_owned(),
        None => "application/octet-stream".to_owned(),
    };
    let ext = match kind {
        QueryMediaKind::Image => infer_query_image_extension(filename, ct.as_str()),
        QueryMediaKind::Video => infer_query_video_extension(filename, ct.as_str()),
        QueryMediaKind::Document => infer_query_document_extension(filename, ct.as_str()),
    };
    match ext {
        Some(e) => Ok((ct, e)),
        None => {
            let message = match kind {
                QueryMediaKind::Image => "Only common image files are accepted as query images right now.",
                QueryMediaKind::Video => "Only mp4, mov, or m4v files are accepted as query videos right now.",
                QueryMediaKind::Document => "Only PDF files are accepted as query documents right now.",
            };
            let mut d = empty_members();
            put_member(&mut d, "field", json_string("file"));
            put_member(&mut d, "content_type", Json::Str(ct));
            let name = match filename {
                Some(f) => json_string(f),
                None => Json::Null,
            };
            put_member(&mut d, "filename", name);
            Err(ApiError::validation_failed(message, Some(Json::Object(d))))
        },
    }
}

/// Takes a part whose body was read: an empty body, or a second file, is refused.
pub fn accept_query_part(
    kind: QueryMediaKind,
    current: &Option<IncomingQueryUpload>,
    content_type: String,
    original_filename: Option<String>,
    extension: String,
    bytes: Vec<u8>,
) -> (r: Result<IncomingQueryUpload, ApiError>)
    ensures
        bytes@.len() == 0 ==> (r matches Err(e) && invalid_request(e, empty_message(kind), field_json("file"@))),
        bytes@.len() > 0 && current is Some ==> (r matches Err(e) && invalid_request(
            e,
            duplicate_message(kind),
            field_json("file"@),
        )),
        bytes@.len() > 0 && current is None ==> (r matches Ok(u) && u.bytes == bytes && u.content_type == content_type
            && u.original_filename == original_filename && u.extension == extension),
{
    if bytes.len() == 0 {
        let message = match kind {
            QueryMediaKind::Image => "Query image upload must not be empty.",
            QueryMediaKind::Video => "Query video upload must not be empty.",
            QueryMediaKind::Document => "Query document upload must not be empty.",
        };
        return Err(ApiError::validation_failed(message, Some(field_details("file"))));
    }
    if current.is_some() {
        let message = match kind {
            QueryMediaKind::Image => "Current 110-image-search implementation accepts exactly one query image per upload.",
            QueryMediaKind::Video => "Current 120-video-search implementation accepts exactly one query video per upload.",
            QueryMediaKind::Document => "Current 130-document-search implementation accepts exactly one query document per upload.",
        };
        return Err(ApiError::validation_failed(message, Some(field_details("file"))));
    }
    Ok(IncomingQueryUpload { bytes, content_type, original_filename, extension })
}

/// The upload once every part was read: the one file, or the error that there was none.
pub fn finish_query_upload(kind: QueryMediaKind, current: Option<IncomingQueryUpload>) -> (r: Result<
    IncomingQueryUpload,
    ApiError,
>)
    ensures
        match current {
            Some(u) => r == Ok::<IncomingQueryUpload, ApiError>(u),
            None => r matches Err(e) && invalid_request(e, missing_message(kind), field_json("file"@)),
        },
{
    match current {
        Some(u) => Ok(u),
        None => {
            let message = match kind {
                QueryMediaKind::Image => "Query image upload requires one image file part.",
                QueryMediaKind::Video => "Query video upload requires one video file part.",
                QueryMediaKind::Document => "Query document upload requires one document file part.",
            };
            Err(ApiError::validation_failed(message, Some(field_details("file"))))
        },
    }
}

/// Where query files of a kind are kept under the runtime directory, and their name stem.
pub open spec fn kind_dir(kind: QueryMediaKind) -> (Seq<char>, Seq<char>) {
    match kind {
        QueryMediaKind::Image => ("images"@, "image"@),
        QueryMediaKind::Video => ("videos"@, "video"@),
        QueryMediaKind::Document => ("documents"@, "document"@),
    }
}

/// The directory and file path for a query file staged with `token`.
pub open spec fn query_asset_target_of(runtime_dir: Seq<char>, kind: QueryMediaKind, token: Seq<char>, extension: Seq<char>) -> (
    Seq<char>,
    Seq<char>,
) {
    let dir = join_path(join_path(runtime_dir, "temp-assets"@), kind_dir(kind).0);
    (dir, join_path(dir, "query-"@ + kind_dir(kind).1 + "-"@ + token + "."@ + extension))
}

fn join_exec(dir: &str, name: &str) -> (r: String)
    ensures
        r@ == join_path(dir@, name@),
{
    let mut r = chars_of(dir);
    let ghost d = r@;
    if r.len() > 0 && r[r.len() - 1] != '/' {
        r.push('/');
    }
    append_str(&mut r, name);
    proof {
        reveal_strlit("/");
        if d.len() > 0 && d.last() != '/' {
            assert(r@ =~= d + "/"@ + name@);
        } else {
            assert(r@ =~= d + name@);
        }
    }
    string_of(&r)
}

/// The directory and path a query file is written to: under `APP_RUNTIME_DIR`, in
/// `temp-assets` and the kind's folder, named after the kind, the token and the extension.
pub fn query_asset_target(env: &ProcessEnv, kind: QueryMediaKind, token: &str, extension: &str) -> (r: Result<
    (String, String),
    ApiError,
>)
    ensures
        match env.var("APP_RUNTIME_DIR"@) {
            Some(d) => r matches Ok((dir, path)) && (dir@, path@) == query_asset_target_of(d, kind, token@, extension@),
            None => r is Err && service_var_is(*env, "APP_RUNTIME_DIR"@, Err(r->Err_0)),
        },
{
    let runtime_dir = match read_required_env(env, "APP_RUNTIME_DIR") {
        Ok(d) => d,
        Err(e) => return Err(e),
    };
    let (folder, stem) = match kind {
        QueryMediaKind::Image => ("images", "image"),
        QueryMediaKind::Video => ("videos", "video"),
        QueryMediaKind::Document => ("documents", "document"),
    };
    let base = join_exec(runtime_dir.as_str(), "temp-assets");
    let dir = join_exec(base.as_str(), folder);
    let mut name = chars_of("query-");
    append_str(&mut name, stem);
    append_str(&mut name, "-");
    append_str(&mut name, token);
    append_str(&mut name, ".");
    append_str(&mut name, extension);
    let path = join_exec(dir.as_str(), string_of(&name).as_str());
    Ok((dir, path))
}

/// The directory and path of a settings model test file staged with `token`.
pub open spec fn model_test_target_of(runtime_dir: Seq<char>, modality: Seq<char>, token: Seq<char>, extension: Seq<char>) -> (
    Seq<char>,
    Seq<char>,
) {
    let dir = join_path(join_path(runtime_dir, "settings-model-tests"@), modality);
    (dir, join_path(dir, "settings-model-test-"@ + token + "."@ + extension))
}

/// Where a settings model test file is written: under `APP_RUNTIME_DIR`, in
/// `settings-model-tests` and the modality's folder.
pub fn settings_model_test_target(env: &ProcessEnv, modality: &str, token: &str, extension: &str) -> (r: Result<
    (String, String),
    ApiError,
>)
    ensures
        match env.var("APP_RUNTIME_DIR"@) {
            Some(d) => r matches Ok((dir, path)) && (dir@, path@) == model_test_target_of(d, modality@, token@, extension@),
            None => r is Err && service_var_is(*env, "APP_RUNTIME_DIR"@, Err(r->Err_0)),
        },
{
    let runtime_dir = match read_required_env(env, "APP_RUNTIME_DIR") {
        Ok(d) => d,
        Err(e) => return Err(e),
    };
    let base = join_exec(runtime_dir.as_str(), "settings-model-tests");
    let dir = join_exec(base.as_str(), modality);
    let mut name = chars_of("settings-model-test-");
    append_str(&mut name, token);
    append_str(&mut name, ".");
    append_str(&mut name, extension);
    let path = join_exec(dir.as_str(), string_of(&name).as_str());
    Ok((dir, path))
}

/// A query file written to the runtime directory.
#[derive(Debug)]
pub struct StagedQueryAsset {
    pub path: String,
    pub source_type: String,
    pub content_type: String,
    pub original_filename: Option<String>,
    pub page_count: Option<usize>,
    pub duration_ms: Option<u64>,
}

/// The source type recorded for a staged query file of a kind.
pub open spec fn staged_source_type(kind: QueryMediaKind) -> Seq<char> {
    match kind {
        QueryMediaKind::Image => "image"@,
        QueryMediaKind::Video => "video"@,
        QueryMediaKind::Document => "pdf"@,
    }
}

/// The record of a query file written to `path`: a video carries its duration, a document
/// its page count.
pub fn staged_query_asset(
    kind: QueryMediaKind,
    path: String,
    content_type: String,
    original_filename: Option<String>,
    measure: u64,
) -> (r: StagedQueryAsset)
    requires
        kind == QueryMediaKind::Document ==> measure <= usize::MAX,
    ensures
        r.path == path,
        r.source_type@ == staged_source_type(kind),
        r.content_type == content_type,
        r.original_filename == original_filename,
        r.page_count == if kind == QueryMediaKind::Document { Some(measure as usize) } else { None::<usize> },
        r.duration_ms == if kind == QueryMediaKind::Video { Some(measure) } else { None::<u64> },
{
    let (source_type, page_count, duration_ms) = match kind {
        QueryMediaKind::Image => ("image", None, None),
        QueryMediaKind::Video => ("video", None, Some(measure)),
        QueryMediaKind::Document => ("pdf", Some(measure as usize), None),
    };
    StagedQueryAsset {
        path,
        source_type: source_type.to_owned(),
        content_type,
        original_filename,
        page_count,
        duration_ms,
    }
}

/// A settings model test file written to the runtime directory.
#[derive(Debug)]
pub struct StagedSettingsModelTestFile {
    pub path: String,
    pub content_type: String,
    pub original_filename: Option<String>,
    pub size_bytes: usize,
}

/// A PDF's page count as the query needs it: a document without pages is refused.
pub fn pdf_page_count_outcome(page_count: usize) -> (r: Result<usize, String>)
    ensures
        page_count == 0 ==> (r matches Err(m) && m@ == "PDF has no pages."@),
        page_count > 0 ==> r == Ok::<usize, String>(page_count),
{
    if page_count == 0 {
        return Err("PDF has no pages.".to_owned());
    }
    Ok(page_count)
}

} // verus!
