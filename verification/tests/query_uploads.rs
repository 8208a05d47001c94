use fauni_search::json::Json;
use fauni_search::query_uploads::{
    accept_query_part, finish_query_upload, pdf_page_count_outcome, query_asset_target,
    query_part_extension, settings_model_test_target, staged_query_asset, IncomingQueryUpload,
    QueryMediaKind,
};
use fauni_search::serve::ProcessEnv;

fn member<'a>(value: &'a Json, key: &str) -> Option<&'a Json> {
    match value {
        Json::Object(members) => members.iter().find(|(k, _)| k == key).map(|(_, v)| v),
        _ => None,
    }
}

fn member_text(value: &Json, key: &str) -> Option<String> {
    match member(value, key) {
        Some(Json::Str(s)) => Some(s.clone()),
        _ => None,
    }
}

fn upload(bytes: &[u8]) -> IncomingQueryUpload {
    IncomingQueryUpload {
        bytes: bytes.to_vec(),
        content_type: "image/png".to_owned(),
        original_filename: Some("cat.png".to_owned()),
        extension: "png".to_owned(),
    }
}

#[test]
fn image_part_extension_comes_from_its_name() {
    let (content_type, extension) =
        query_part_extension(QueryMediaKind::Image, Some("cat.PNG"), Some("image/png")).unwrap();
    assert_eq!(content_type, "image/png");
    assert_eq!(extension, "png");
}

#[test]
fn part_without_content_type_is_taken_as_octet_stream() {
    let (content_type, extension) =
        query_part_extension(QueryMediaKind::Document, Some("paper.pdf"), None).unwrap();
    assert_eq!(content_type, "application/octet-stream");
    assert_eq!(extension, "pdf");
}

#[test]
fn video_part_of_another_format_is_refused_with_details() {
    let err = query_part_extension(QueryMediaKind::Video, Some("clip.avi"), Some("video/x-msvideo"))
        .unwrap_err();
    assert_eq!(err.status, 422);
    assert_eq!(err.payload.code, "validation_failed");
    assert_eq!(
        err.payload.message,
        "Only mp4, mov, or m4v files are accepted as query videos right now."
    );
    let details = err.payload.details.unwrap();
    assert_eq!(member_text(&details, "field").as_deref(), Some("file"));
    assert_eq!(member_text(&details, "content_type").as_deref(), Some("video/x-msvideo"));
    assert_eq!(member_text(&details, "filename").as_deref(), Some("clip.avi"));
}

#[test]
fn refused_part_without_name_has_null_filename() {
    let err = query_part_extension(QueryMediaKind::Document, None, Some("text/plain")).unwrap_err();
    assert_eq!(err.payload.message, "Only PDF files are accepted as query documents right now.");
    let details = err.payload.details.unwrap();
    assert!(matches!(member(&details, "filename"), Some(Json::Null)));
}

#[test]
fn empty_part_is_refused() {
    let err = accept_query_part(
        QueryMediaKind::Image,
        &None,
        "image/png".to_owned(),
        None,
        "png".to_owned(),
        Vec::new(),
    )
    .unwrap_err();
    assert_eq!(err.payload.message, "Query image upload must not be empty.");
}

#[test]
fn second_part_is_refused() {
    let first = Some(upload(b"abc"));
    let err = accept_query_part(
        QueryMediaKind::Image,
        &first,
        "image/png".to_owned(),
        None,
        "png".to_owned(),
        b"def".to_vec(),
    )
    .unwrap_err();
    assert_eq!(
        err.payload.message,
        "Current 110-image-search implementation accepts exactly one query image per upload."
    );
}

#[test]
fn first_part_is_kept_as_given() {
    let accepted = accept_query_part(
        QueryMediaKind::Video,
        &None,
        "video/mp4".to_owned(),
        Some("clip.mp4".to_owned()),
        "mp4".to_owned(),
        b"data".to_vec(),
    )
    .unwrap();
    assert_eq!(accepted.bytes, b"data".to_vec());
    assert_eq!(accepted.content_type, "video/mp4");
    assert_eq!(accepted.original_filename.as_deref(), Some("clip.mp4"));
    assert_eq!(accepted.extension, "mp4");
}

#[test]
fn upload_without_file_is_refused() {
    let err = finish_query_upload(QueryMediaKind::Document, None).unwrap_err();
    assert_eq!(err.payload.message, "Query document upload requires one document file part.");
    let done = finish_query_upload(QueryMediaKind::Image, Some(upload(b"x"))).unwrap();
    assert_eq!(done.bytes, b"x".to_vec());
}

#[test]
fn query_asset_target_is_under_runtime_dir() {
    let mut env = ProcessEnv::new();
    env.set("APP_RUNTIME_DIR", "/srv/runtime/");
    let (dir, path) = query_asset_target(&env, QueryMediaKind::Video, "tok", "mp4").unwrap();
    assert_eq!(dir, "/srv/runtime/temp-assets/videos");
    assert_eq!(path, "/srv/runtime/temp-assets/videos/query-video-tok.mp4");
}

#[test]
fn query_asset_target_needs_runtime_dir() {
    let env = ProcessEnv::new();
    let err = query_asset_target(&env, QueryMediaKind::Image, "tok", "png").unwrap_err();
    assert_eq!(err.status, 503);
    assert_eq!(
        err.payload.message,
        "Missing required environment variable APP_RUNTIME_DIR; source .env or use scripts/local/run.sh"
    );
}

#[test]
fn settings_model_test_target_is_under_runtime_dir() {
    let mut env = ProcessEnv::new();
    env.set("APP_RUNTIME_DIR", "/srv/rt");
    let (dir, path) = settings_model_test_target(&env, "image", "abc", "png").unwrap();
    assert_eq!(dir, "/srv/rt/settings-model-tests/image");
    assert_eq!(path, "/srv/rt/settings-model-tests/image/settings-model-test-abc.png");
}

#[test]
fn staged_asset_carries_the_measure_of_its_kind() {
    let video = staged_query_asset(QueryMediaKind::Video, "/v.mp4".to_owned(), "video/mp4".to_owned(), None, 1500);
    assert_eq!(video.source_type, "video");
    assert_eq!(video.duration_ms, Some(1500));
    assert_eq!(video.page_count, None);
    let pdf = staged_query_asset(QueryMediaKind::Document, "/d.pdf".to_owned(), "application/pdf".to_owned(), None, 3);
    assert_eq!(pdf.source_type, "pdf");
    assert_eq!(pdf.page_count, Some(3));
    assert_eq!(pdf.duration_ms, None);
    let image = staged_query_asset(QueryMediaKind::Image, "/i.png".to_owned(), "image/png".to_owned(), None, 9);
    assert_eq!(image.source_type, "image");
    assert_eq!(image.page_count, None);
    assert_eq!(image.duration_ms, None);
}

#[test]
fn pdf_without_pages_is_refused() {
    assert_eq!(pdf_page_count_outcome(0), Err("PDF has no pages.".to_owned()));
    assert_eq!(pdf_page_count_outcome(4), Ok(4));
}
