use vstd::prelude::*;
use crate::cli_error::{plain_error_is, CliError};
use crate::json::{clone_json, empty_members, member, json_model, json_string, json_strings, json_u64, pairs_insert, put_member, string_views, Json, JsonV, Pairs};
use crate::text::{append_str, chars_of, decimal, string_of};

verus! {

/// The options of `faus search`, as given on the command line.
#[derive(Debug)]
pub struct SearchArgs {
    pub library_id: Option<String>,
    pub all_libraries: bool,
    pub text: Option<String>,
    pub image: Option<String>,
    pub video: Option<String>,
    pub document: Option<String>,
    pub top_k: Option<usize>,
    pub cursor: Option<String>,
    pub target_content_types: Vec<String>,
    pub video_start_ms: Option<u64>,
    pub video_end_ms: Option<u64>,
    pub document_start_page: Option<u64>,
    pub document_end_page: Option<u64>,
}

/// Where a search looks.
#[derive(Debug)]
pub enum SearchScope {
    Library(String),
    AllLibraries,
}

/// The query of a search; files are given by their local paths.
#[derive(Debug)]
pub enum SearchInput {
    Text(String),
    Image(String),
    Video(String),
    Document(String),
}

/// The options that every search carries.
#[derive(Debug)]
pub struct SearchCommon {
    pub top_k: Option<usize>,
    pub cursor: Option<String>,
    pub target_content_types: Vec<String>,
    pub video_locator: Option<Json>,
    pub document_locator: Option<Json>,
}

/// A validated `faus search` invocation.
#[derive(Debug)]
pub struct SearchCommand {
    pub scope: SearchScope,
    pub input: SearchInput,
    pub common: SearchCommon,
}

/// The number of query inputs given.
pub open spec fn input_count(a: SearchArgs) -> int {
    (if a.text is Some { 1int } else { 0int }) + (if a.image is Some { 1int } else { 0int }) + (if a.video is Some {
        1int
    } else {
        0int
    }) + (if a.document is Some { 1int } else { 0int })
}

/// A `validation_failed` problem with a message.
pub open spec fn invalid(message: Seq<char>) -> Option<(Seq<char>, Seq<char>, Option<Seq<char>>)> {
    Some(("validation_failed"@, message, None))
}

/// The message of a locator bound given without its partner.
pub open spec fn unpaired_message(start_flag: Seq<char>, end_flag: Seq<char>) -> Seq<char> {
    "`"@ + start_flag + "` and `"@ + end_flag + "` must be passed together."@
}

/// Exactly one of two optional bounds is given.
pub open spec fn unpaired(start: Option<u64>, end: Option<u64>) -> bool {
    start is Some != end is Some
}

/// The first problem with the options of a search, as (code, message, hint), in the order
/// in which they are checked; none when the options make a command.
pub open spec fn search_args_problem(a: SearchArgs) -> Option<(Seq<char>, Seq<char>, Option<Seq<char>>)> {
    if a.library_id is Some && a.all_libraries {
        invalid("Use either `--library-id` or `--all-libraries`, not both."@)
    } else if a.top_k == Some(0usize) {
        invalid("`--top-k` must be greater than 0."@)
    } else if a.library_id is None && !a.all_libraries {
        invalid("Search scope is required; pass `--library-id <id>` or `--all-libraries`."@)
    } else if input_count(a) == 0 {
        invalid("Search query input is required; pass one of `--text`, `--image`, `--video`, or `--document`."@)
    } else if input_count(a) > 1 {
        Some((
            "not_supported"@,
            "Combined search inputs are not supported by the current App API."@,
            Some("Use exactly one query input for now. The flag-based command shape is reserved for future combined search."@),
        ))
    } else if unpaired(a.video_start_ms, a.video_end_ms) {
        invalid(unpaired_message("--video-start-ms"@, "--video-end-ms"@))
    } else if unpaired(a.document_start_page, a.document_end_page) {
        invalid(unpaired_message("--document-start-page"@, "--document-end-page"@))
    } else if a.video_start_ms is Some && a.video is None {
        invalid("`--video-start-ms` and `--video-end-ms` can only be used with `--video`."@)
    } else if a.document_start_page is Some && a.document is None {
        invalid("`--document-start-page` and `--document-end-page` can only be used with `--document`."@)
    } else {
        None
    }
}

/// The locator made of two bounds under the two keys.
pub open spec fn locator_json(start_key: Seq<char>, start: u64, end_key: Seq<char>, end: u64) -> JsonV {
    JsonV::Object(pairs_insert(
        pairs_insert(seq![], start_key, JsonV::Number(decimal(start as nat))),
        end_key,
        JsonV::Number(decimal(end as nat)),
    ))
}

/// The model of an optional locator.
pub open spec fn opt_model(o: Option<Json>) -> Option<JsonV> {
    match o {
        Some(j) => Some(json_model(j)),
        None => None,
    }
}

/// `c` is the command that the valid options `a` make.
pub open spec fn search_command_from(a: SearchArgs, c: SearchCommand) -> bool {
    &&& match a.library_id {
        Some(id) => c.scope == SearchScope::Library(id),
        None => c.scope == SearchScope::AllLibraries,
    }
    &&& match (a.text, a.image, a.video, a.document) {
        (Some(t), _, _, _) => c.input == SearchInput::Text(t),
        (None, Some(p), _, _) => c.input == SearchInput::Image(p),
        (None, None, Some(p), _) => c.input == SearchInput::Video(p),
        (None, None, None, Some(p)) => c.input == SearchInput::Document(p),
        _ => false,
    }
    &&& c.common.top_k == a.top_k
    &&& c.common.cursor == a.cursor
    &&& c.common.target_content_types == a.target_content_types
    &&& opt_model(c.common.video_locator) == match (a.video_start_ms, a.video_end_ms) {
        (Some(s), Some(e)) => Some(locator_json("start_ms"@, s, "end_ms"@, e)),
        _ => None,
    }
    &&& opt_model(c.common.document_locator) == match (a.document_start_page, a.document_end_page) {
        (Some(s), Some(e)) => Some(locator_json("start_page"@, s, "end_page"@, e)),
        _ => None,
    }
}

fn validation_error(message: &str) -> (r: CliError)
    ensures
        plain_error_is(r, "validation_failed"@, message@, None),
{
    CliError::new("validation_failed", message)
}

/// A locator from two bounds that must be given together: none when neither is given, an
/// error when only one is.
pub fn paired_locator(start: Option<u64>, end: Option<u64>, start_flag: &str, end_flag: &str, start_key: &str, end_key: &str) -> (r:
    Result<Option<Json>, CliError>)
    ensures
        match (start, end) {
            (Some(s), Some(e)) => r matches Ok(Some(l)) && json_model(l) == locator_json(start_key@, s, end_key@, e),
            (None, None) => r matches Ok(None),
            _ => r matches Err(err) && plain_error_is(
                err,
                "validation_failed"@,
                unpaired_message(start_flag@, end_flag@),
                None,
            ),
        },
{
    match (start, end) {
        (Some(s), Some(e)) => {
            let mut l = empty_members();
            put_member(&mut l, start_key, json_u64(s));
            put_member(&mut l, end_key, json_u64(e));
            Ok(Some(Json::Object(l)))
        },
        (None, None) => Ok(None),
        _ => {
            let mut m = chars_of("`");
            append_str(&mut m, start_flag);
            append_str(&mut m, "` and `");
            append_str(&mut m, end_flag);
            append_str(&mut m, "` must be passed together.");
            let e = CliError::new("validation_failed", "");
            Err(CliError { message: string_of(&m), ..e })
        },
    }
}

impl SearchCommand {
    /// Validates the options of a search (see `search_args_problem` and
    /// `search_command_from`).
    pub fn from_args(args: SearchArgs) -> (r: Result<SearchCommand, CliError>)
        ensures
            match search_args_problem(args) {
                Some((code, message, hint)) => r matches Err(e) && plain_error_is(e, code, message, hint),
                None => r matches Ok(c) && search_command_from(args, c),
            },
    {
        let ghost a = args;
        if args.library_id.is_some() && args.all_libraries {
            return Err(validation_error("Use either `--library-id` or `--all-libraries`, not both."));
        }
        if args.top_k == Some(0usize) {
            return Err(validation_error("`--top-k` must be greater than 0."));
        }
        let SearchArgs {
            library_id,
            all_libraries,
            text,
            image,
            video,
            document,
            top_k,
            cursor,
            target_content_types,
            video_start_ms,
            video_end_ms,
            document_start_page,
            document_end_page,
        } = args;
        let scope = match library_id {
            Some(id) => SearchScope::Library(id),
            None => {
                if !all_libraries {
                    return Err(validation_error(
                        "Search scope is required; pass `--library-id <id>` or `--all-libraries`.",
                    ));
                }
                SearchScope::AllLibraries
            },
        };
        let count: u8 = (if text.is_some() { 1u8 } else { 0u8 }) + (if image.is_some() { 1u8 } else { 0u8 }) + (if video.is_some() {
            1u8
        } else {
            0u8
        }) + (if document.is_some() { 1u8 } else { 0u8 });
        if count == 0 {
            return Err(validation_error(
                "Search query input is required; pass one of `--text`, `--image`, `--video`, or `--document`.",
            ));
        }
        if count > 1 {
            return Err(
                CliError::new("not_supported", "Combined search inputs are not supported by the current App API.")
                    .with_hint(
                    "Use exactly one query input for now. The flag-based command shape is reserved for future combined search.",
                ),
            );
        }
        let is_video = video.is_some();
        let is_document = document.is_some();
        let input = match text {
            Some(t) => SearchInput::Text(t),
            None => match image {
                Some(p) => SearchInput::Image(p),
                None => match video {
                    Some(p) => SearchInput::Video(p),
                    None => match document {
                        Some(p) => SearchInput::Document(p),
                        None => {
                            return Err(validation_error(
                                "Search query input is required; pass one of `--text`, `--image`, `--video`, or `--document`.",
                            ));
                        },
                    },
                },
            },
        };
        let video_locator = paired_locator(
            video_start_ms,
            video_end_ms,
            "--video-start-ms",
            "--video-end-ms",
            "start_ms",
            "end_ms",
        )?;
        let document_locator = paired_locator(
            document_start_page,
            document_end_page,
            "--document-start-page",
            "--document-end-page",
            "start_page",
            "end_page",
        )?;
        if video_locator.is_some() && !is_video {
            return Err(validation_error("`--video-start-ms` and `--video-end-ms` can only be used with `--video`."));
        }
        if document_locator.is_some() && !is_document {
            return Err(validation_error(
                "`--document-start-page` and `--document-end-page` can only be used with `--document`.",
            ));
        }
        Ok(
            SearchCommand {
                scope,
                input,
                common: SearchCommon { top_k, cursor, target_content_types, video_locator, document_locator },
            },
        )
    }
}


/// The kind of file that a search uploads as its query.
#[derive(Debug, Clone, Copy, PartialEq, Eq, Structural)]
pub enum FileSearchKind {
    Image,
    Video,
    Document,
}

impl FileSearchKind {
    /// The path segment under which query assets of this kind are uploaded.
    pub fn query_asset_path_segment(self) -> (r: &'static str)
        ensures
            r@ == match self {
                FileSearchKind::Image => "images"@,
                FileSearchKind::Video => "videos"@,
                FileSearchKind::Document => "documents"@,
            },
    {
        match self {
            FileSearchKind::Image => "images",
            FileSearchKind::Video => "videos",
            FileSearchKind::Document => "documents",
        }
    }

    /// The path segment of the search endpoint for this kind.
    pub fn search_path_segment(self) -> (r: &'static str)
        ensures
            r@ == match self {
                FileSearchKind::Image => "image"@,
                FileSearchKind::Video => "video"@,
                FileSearchKind::Document => "document"@,
            },
    {
        match self {
            FileSearchKind::Image => "image",
            FileSearchKind::Video => "video",
            FileSearchKind::Document => "document",
        }
    }
}

/// The JSON form of a search scope.
pub open spec fn search_scope_json(s: SearchScope) -> JsonV {
    match s {
        SearchScope::Library(id) => JsonV::Object(
            pairs_insert(pairs_insert(seq![], "kind"@, JsonV::Str("library"@)), "library_id"@, JsonV::Str(id@)),
        ),
        SearchScope::AllLibraries => JsonV::Object(pairs_insert(seq![], "kind"@, JsonV::Str("all_libraries"@))),
    }
}

impl SearchScope {
    /// The JSON form of the scope (see `search_scope_json`).
    pub fn to_json(&self) -> (r: Json)
        ensures
            json_model(r) == search_scope_json(*self),
    {
        let mut o = empty_members();
        match self {
            SearchScope::Library(id) => {
                put_member(&mut o, "kind", json_string("library"));
                put_member(&mut o, "library_id", Json::Str(id.clone()));
            },
            SearchScope::AllLibraries => put_member(&mut o, "kind", json_string("all_libraries")),
        }
        Json::Object(o)
    }
}

/// The members that every search body carries: `top_k`, the cursor, the target content
/// types when there are any, and the debug flag when it is set.
pub open spec fn common_fields(ps: Pairs, c: SearchCommon, debug: bool) -> Pairs {
    let p1 = match c.top_k {
        Some(k) => pairs_insert(ps, "top_k"@, JsonV::Number(decimal(k as nat))),
        None => ps,
    };
    let p2 = match c.cursor {
        Some(cur) => pairs_insert(p1, "cursor"@, JsonV::Str(cur@)),
        None => p1,
    };
    let p3 = if c.target_content_types.len() > 0 {
        pairs_insert(
            p2,
            "target_content_types"@,
            JsonV::Array(string_views(c.target_content_types@).map_values(|s: Seq<char>| JsonV::Str(s))),
        )
    } else {
        p2
    };
    if debug { pairs_insert(p3, "debug"@, JsonV::Bool(true)) } else { p3 }
}

fn insert_common_search_fields(body: &mut Vec<(String, Json)>, common: &SearchCommon, debug: bool)
    ensures
        crate::json::pairs_model(final(body)@) == common_fields(crate::json::pairs_model(old(body)@), *common, debug),
{
    match common.top_k {
        Some(k) => put_member(body, "top_k", json_u64(k as u64)),
        None => {},
    }
    match &common.cursor {
        Some(c) => put_member(body, "cursor", Json::Str(c.clone())),
        None => {},
    }
    if common.target_content_types.len() > 0 {
        put_member(body, "target_content_types", json_strings(&common.target_content_types));
    }
    if debug {
        put_member(body, "debug", Json::Bool(true));
    }
}

/// The body of a text search request.
pub open spec fn text_body_json(text: Seq<char>, scope: SearchScope, c: SearchCommon, debug: bool) -> JsonV {
    JsonV::Object(common_fields(
        pairs_insert(pairs_insert(seq![], "text"@, JsonV::Str(text)), "search_scope"@, search_scope_json(scope)),
        c,
        debug,
    ))
}

/// The body of a text search request (see `text_body_json`).
pub fn text_search_body(text: &str, scope: &SearchScope, common: &SearchCommon, debug: bool) -> (r: Json)
    ensures
        json_model(r) == text_body_json(text@, *scope, *common, debug),
{
    let mut body = empty_members();
    put_member(&mut body, "text", json_string(text));
    put_member(&mut body, "search_scope", scope.to_json());
    insert_common_search_fields(&mut body, common, debug);
    Json::Object(body)
}

/// The body of a search by an uploaded query file: the library (for a library scope), the
/// scope, the input that names the query asset (with the kind's locator for videos and
/// documents), and the common members.
pub open spec fn file_body_json(kind: FileSearchKind, scope: SearchScope, temp_asset_id: Seq<char>, c: SearchCommon, debug: bool) -> JsonV {
    let p0 = match scope {
        SearchScope::Library(id) => pairs_insert(seq![], "library_id"@, JsonV::Str(id@)),
        SearchScope::AllLibraries => seq![],
    };
    let p1 = pairs_insert(p0, "search_scope"@, search_scope_json(scope));
    let input = pairs_insert(pairs_insert(seq![], "kind"@, JsonV::Str("temp_asset"@)), "temp_asset_id"@, JsonV::Str(temp_asset_id));
    let p2 = match kind {
        FileSearchKind::Image => pairs_insert(p1, "image_input"@, JsonV::Object(input)),
        FileSearchKind::Video => pairs_insert(p1, "video_input"@, JsonV::Object(match c.video_locator {
            Some(l) => pairs_insert(input, "locator"@, json_model(l)),
            None => input,
        })),
        FileSearchKind::Document => pairs_insert(p1, "document_input"@, JsonV::Object(match c.document_locator {
            Some(l) => pairs_insert(input, "locator"@, json_model(l)),
            None => input,
        })),
    };
    JsonV::Object(common_fields(p2, c, debug))
}

/// The body of a search by an uploaded query file (see `file_body_json`).
pub fn file_search_body(kind: FileSearchKind, scope: &SearchScope, temp_asset_id: &str, common: &SearchCommon, debug: bool) -> (r: Json)
    ensures
        json_model(r) == file_body_json(kind, *scope, temp_asset_id@, *common, debug),
{
    let mut body = empty_members();
    match scope {
        SearchScope::Library(id) => put_member(&mut body, "library_id", Json::Str(id.clone())),
        SearchScope::AllLibraries => {},
    }
    put_member(&mut body, "search_scope", scope.to_json());
    let mut input = empty_members();
    put_member(&mut input, "kind", json_string("temp_asset"));
    put_member(&mut input, "temp_asset_id", json_string(temp_asset_id));
    match kind {
        FileSearchKind::Image => put_member(&mut body, "image_input", Json::Object(input)),
        FileSearchKind::Video => {
            match &common.video_locator {
                Some(l) => put_member(&mut input, "locator", clone_json(l)),
                None => {},
            }
            put_member(&mut body, "video_input", Json::Object(input));
        },
        FileSearchKind::Document => {
            match &common.document_locator {
                Some(l) => put_member(&mut input, "locator", clone_json(l)),
                None => {},
            }
            put_member(&mut body, "document_input", Json::Object(input));
        },
    }
    insert_common_search_fields(&mut body, common, debug);
    Json::Object(body)
}

/// The outcome of a search, before it is printed.
#[derive(Debug)]
pub struct SearchResponse {
    pub upload_request_url: Option<String>,
    pub upload_http_status: Option<u16>,
    pub search_request_url: String,
    pub search_http_status: u16,
    pub query_asset: Option<Json>,
    pub search: Json,
}

/// The JSON output of a search: status and data (base URL, search and query asset), and
/// with `debug` the base URL's source and the requests' URLs and statuses.
pub open spec fn search_output_json(base_url: Seq<char>, base_url_source: Seq<char>, r: SearchResponse, debug: bool) -> JsonV {
    let d1 = pairs_insert(pairs_insert(seq![], "base_url"@, JsonV::Str(base_url)), "search"@, json_model(r.search));
    let d2 = match r.query_asset {
        Some(q) => pairs_insert(d1, "query_asset"@, json_model(q)),
        None => d1,
    };
    let p = pairs_insert(pairs_insert(seq![], "status"@, JsonV::Str("ok"@)), "data"@, JsonV::Object(d2));
    if debug {
        let g1 = pairs_insert(seq![], "base_url_source"@, JsonV::Str(base_url_source));
        let g2 = pairs_insert(g1, "search_request_url"@, JsonV::Str(r.search_request_url@));
        let g3 = pairs_insert(g2, "search_http_status"@, JsonV::Number(decimal(r.search_http_status as nat)));
        let g4 = match r.upload_request_url {
            Some(u) => pairs_insert(g3, "upload_request_url"@, JsonV::Str(u@)),
            None => g3,
        };
        let g5 = match r.upload_http_status {
            Some(st) => pairs_insert(g4, "upload_http_status"@, JsonV::Number(decimal(st as nat))),
            None => g4,
        };
        JsonV::Object(pairs_insert(p, "debug"@, JsonV::Object(g5)))
    } else {
        JsonV::Object(p)
    }
}

/// The JSON output of a search (see `search_output_json`).
pub fn search_output_payload(base_url: &str, base_url_source: &str, response: &SearchResponse, debug: bool) -> (r: Json)
    ensures
        json_model(r) == search_output_json(base_url@, base_url_source@, *response, debug),
{
    let mut data = empty_members();
    put_member(&mut data, "base_url", json_string(base_url));
    put_member(&mut data, "search", clone_json(&response.search));
    match &response.query_asset {
        Some(q) => put_member(&mut data, "query_asset", clone_json(q)),
        None => {},
    }
    let mut payload = empty_members();
    put_member(&mut payload, "status", json_string("ok"));
    put_member(&mut payload, "data", Json::Object(data));
    if debug {
        let mut d = empty_members();
        put_member(&mut d, "base_url_source", json_string(base_url_source));
        put_member(&mut d, "search_request_url", Json::Str(response.search_request_url.clone()));
        put_member(&mut d, "search_http_status", json_u64(response.search_http_status as u64));
        match &response.upload_request_url {
            Some(u) => put_member(&mut d, "upload_request_url", Json::Str(u.clone())),
            None => {},
        }
        match response.upload_http_status {
            Some(st) => put_member(&mut d, "upload_http_status", json_u64(st as u64)),
            None => {},
        }
        put_member(&mut payload, "debug", Json::Object(d));
    }
    Json::Object(payload)
}

/// Where a query file is uploaded: under the library when there is one, else globally.
pub fn query_asset_upload_path(library_id: Option<&str>, segment: &str) -> (r: String)
    ensures
        r@ == match library_id {
            Some(id) => "/libraries/"@ + id@ + "/query-assets/"@ + segment@,
            None => "/query-assets/"@ + segment@,
        },
{
    match library_id {
        Some(id) => {
            let mut m = chars_of("/libraries/");
            append_str(&mut m, id);
            append_str(&mut m, "/query-assets/");
            append_str(&mut m, segment);
            string_of(&m)
        },
        None => {
            let mut m = chars_of("/query-assets/");
            append_str(&mut m, segment);
            string_of(&m)
        },
    }
}

/// The search endpoint of a kind of query file.
pub fn file_search_path(kind: FileSearchKind) -> (r: String)
    ensures
        r@ == "/search/"@ + match kind {
            FileSearchKind::Image => "image"@,
            FileSearchKind::Video => "video"@,
            FileSearchKind::Document => "document"@,
        },
{
    let mut m = chars_of("/search/");
    append_str(&mut m, kind.search_path_segment());
    string_of(&m)
}

} // verus!
