use vstd::prelude::*;
use crate::cli_error::{error_is, plain_error_is, CliError};
use crate::config::opt_view;
use crate::json::{
    clone_json, clone_pairs, empty_members, get_member_of, json_model, json_string, json_strings, json_u64, member,
    pairs_insert, put_member, str_member, string_field, string_views, Json, JsonV, Pairs,
};
use crate::glob::{char_views, path_segments, split_path_segments};
use crate::text::{append_chars, append_str, chars_eq, chars_of, starts_with, starts_with_chars, string_of, trim, trim_chars};
use sha2::Digest;

verus! {

/// How long `faus find` waits for a folder's prepare job before it searches.
#[derive(Clone, Copy, Debug, PartialEq, Eq, Structural)]
pub enum WaitMode {
    /// Wait until the prepare job completes.
    Complete,
    /// Search as soon as some results are active.
    Partial,
}

impl WaitMode {
    /// The wire name of the mode.
    pub fn as_str(self) -> (r: &'static str)
        ensures
            r@ == wait_mode_name(self),
    {
        match self {
            WaitMode::Complete => "complete",
            WaitMode::Partial => "partial",
        }
    }
}

/// The wire name of a wait mode.
pub open spec fn wait_mode_name(m: WaitMode) -> Seq<char> {
    match m {
        WaitMode::Complete => "complete"@,
        WaitMode::Partial => "partial"@,
    }
}

/// The default time to wait for a prepare job, in milliseconds.
pub const DEFAULT_WAIT_TIMEOUT_MS: u64 = 300_000;

/// The default interval between polls of a prepare job, in milliseconds.
pub const DEFAULT_POLL_INTERVAL_MS: u64 = 1_000;

/// The options of `faus find`, as given on the command line.
#[derive(Debug)]
pub struct FindArgs {
    pub folder: Option<String>,
    pub text: Option<String>,
    pub image: Option<String>,
    pub top_k: Option<usize>,
    pub target_content_types: Vec<String>,
    pub library_id: Option<String>,
    pub all_libraries: bool,
    pub rescan: bool,
    pub wait_mode: Option<WaitMode>,
    pub wait_timeout_ms: Option<u64>,
    pub poll_interval_ms: Option<u64>,
}

/// The query of a find.
#[derive(Debug)]
pub enum FindInput {
    Text(String),
    /// The path of a local image file.
    Image(String),
}

/// A local folder to prepare as a source root and search.
#[derive(Debug)]
pub struct FolderFindScope {
    pub folder: String,
    pub folder_input: String,
    pub library_id: Option<String>,
    pub rescan: bool,
    pub wait_mode: WaitMode,
    pub wait_timeout_ms: u64,
    pub poll_interval_ms: u64,
}

/// Where a find searches.
#[derive(Debug)]
pub enum FindScope {
    Folder(FolderFindScope),
    Library { library_id: String },
    AllLibraries,
}

/// A validated `faus find` invocation.
#[derive(Debug)]
pub struct FindCommand {
    pub scope: FindScope,
    pub input: FindInput,
    pub top_k: Option<usize>,
    pub target_content_types: Vec<String>,
}

/// The hint given when an image find is asked of all libraries.
pub open spec fn image_scope_hint() -> Seq<char> {
    "Use `--library-id <library_id>` for image find, or use `--text` with `--all-libraries`."@
}

/// The message given when an image find is asked of all libraries.
pub open spec fn image_scope_message() -> Seq<char> {
    "`faus find --all-libraries --image` is not supported because query image upload is library-scoped."@
}

/// A `validation_failed` problem with a message.
pub open spec fn invalid(message: Seq<char>) -> Option<(Seq<char>, Seq<char>, Option<Seq<char>>)> {
    Some(("validation_failed"@, message, None))
}

/// The first problem with the options of a find, as (code, message, hint), in the order in
/// which they are checked; none when the options make a command.
pub open spec fn find_args_problem(a: FindArgs) -> Option<(Seq<char>, Seq<char>, Option<Seq<char>>)> {
    if a.top_k == Some(0usize) {
        invalid("`--top-k` must be greater than 0."@)
    } else if a.wait_timeout_ms == Some(0u64) {
        invalid("`--wait-timeout-ms` must be greater than 0."@)
    } else if a.poll_interval_ms == Some(0u64) {
        invalid("`--poll-interval-ms` must be greater than 0."@)
    } else if a.text is None && a.image is None {
        invalid("Find query input is required; pass `--text` or `--image`."@)
    } else if a.text is Some && a.image is Some {
        Some((
            "not_supported"@,
            "Combined find inputs are not supported by the current App API."@,
            Some("Use exactly one query input for now."@),
        ))
    } else if a.text matches Some(t) && trim(t@).len() == 0 {
        invalid("`--text` must not be empty."@)
    } else if a.folder is Some {
        if a.all_libraries {
            invalid("`<folder>` cannot be combined with `--all-libraries`."@)
        } else {
            None
        }
    } else if a.rescan {
        invalid("`--rescan` requires a folder prepare workflow."@)
    } else if a.wait_mode is Some {
        invalid("`--wait-mode` requires a folder prepare workflow."@)
    } else if a.wait_timeout_ms is Some {
        invalid("`--wait-timeout-ms` requires a folder prepare workflow."@)
    } else if a.poll_interval_ms is Some {
        invalid("`--poll-interval-ms` requires a folder prepare workflow."@)
    } else if a.all_libraries && a.library_id is Some {
        invalid("`--all-libraries` cannot be combined with `--library-id` in scope-only mode."@)
    } else if a.all_libraries && a.image is Some {
        Some(("not_supported"@, image_scope_message(), Some(image_scope_hint())))
    } else if !a.all_libraries && a.library_id is None {
        invalid("Pass a folder, `--library-id <library_id>`, or `--all-libraries`."@)
    } else {
        None
    }
}

/// `c` is the command that the valid options `a` make.
pub open spec fn find_command_from(a: FindArgs, c: FindCommand) -> bool {
    &&& c.top_k == a.top_k
    &&& c.target_content_types == a.target_content_types
    &&& match a.text {
        Some(t) => c.input == FindInput::Text(t),
        None => a.image matches Some(p) && c.input == FindInput::Image(p),
    }
    &&& match a.folder {
        Some(f) => c.scope matches FindScope::Folder(s) && {
            &&& s.folder == f
            &&& s.folder_input@ == f@
            &&& s.library_id == a.library_id
            &&& s.rescan == a.rescan
            &&& s.wait_mode == match a.wait_mode {
                Some(m) => m,
                None => WaitMode::Complete,
            }
            &&& s.wait_timeout_ms == match a.wait_timeout_ms {
                Some(t) => t,
                None => DEFAULT_WAIT_TIMEOUT_MS,
            }
            &&& s.poll_interval_ms == match a.poll_interval_ms {
                Some(t) => t,
                None => DEFAULT_POLL_INTERVAL_MS,
            }
        },
        None => if a.all_libraries {
            c.scope == FindScope::AllLibraries
        } else {
            a.library_id matches Some(id) && c.scope == (FindScope::Library { library_id: id })
        },
    }
}

fn validation_error(message: &str) -> (r: CliError)
    ensures
        plain_error_is(r, "validation_failed"@, message@, None),
{
    CliError::new("validation_failed", message)
}

fn image_scope_error() -> (r: CliError)
    ensures
        plain_error_is(r, "not_supported"@, image_scope_message(), Some(image_scope_hint())),
{
    CliError::new(
        "not_supported",
        "`faus find --all-libraries --image` is not supported because query image upload is library-scoped.",
    ).with_hint("Use `--library-id <library_id>` for image find, or use `--text` with `--all-libraries`.")
}

impl FindCommand {
    /// Validates the options of a find (see `find_args_problem` and `find_command_from`).
    pub fn from_args(args: FindArgs) -> (r: Result<FindCommand, CliError>)
        ensures
            match find_args_problem(args) {
                Some((code, message, hint)) => r matches Err(e) && plain_error_is(e, code, message, hint),
                None => r matches Ok(c) && find_command_from(args, c),
            },
    {
        let ghost a = args;
        if args.top_k == Some(0usize) {
            return Err(validation_error("`--top-k` must be greater than 0."));
        }
        if args.wait_timeout_ms == Some(0u64) {
            return Err(validation_error("`--wait-timeout-ms` must be greater than 0."));
        }
        if args.poll_interval_ms == Some(0u64) {
            return Err(validation_error("`--poll-interval-ms` must be greater than 0."));
        }
        if args.text.is_none() && args.image.is_none() {
            return Err(validation_error("Find query input is required; pass `--text` or `--image`."));
        }
        if args.text.is_some() && args.image.is_some() {
            return Err(
                CliError::new("not_supported", "Combined find inputs are not supported by the current App API.")
                    .with_hint("Use exactly one query input for now."),
            );
        }
        let FindArgs {
            folder,
            text,
            image,
            top_k,
            target_content_types,
            library_id,
            all_libraries,
            rescan,
            wait_mode,
            wait_timeout_ms,
            poll_interval_ms,
        } = args;
        let is_image = image.is_some();
        let input = match text {
            Some(t) => {
                let trimmed = trim_chars(&chars_of(t.as_str()));
                if trimmed.len() == 0 {
                    return Err(validation_error("`--text` must not be empty."));
                }
                FindInput::Text(t)
            },
            None => match image {
                Some(p) => FindInput::Image(p),
                None => {
                    return Err(validation_error("Find query input is required; pass `--text` or `--image`."));
                },
            },
        };
        let scope = match folder {
            Some(f) => {
                if all_libraries {
                    return Err(validation_error("`<folder>` cannot be combined with `--all-libraries`."));
                }
                let folder_input = f.clone();
                FindScope::Folder(
                    FolderFindScope {
                        folder: f,
                        folder_input,
                        library_id,
                        rescan,
                        wait_mode: match wait_mode {
                            Some(m) => m,
                            None => WaitMode::Complete,
                        },
                        wait_timeout_ms: match wait_timeout_ms {
                            Some(t) => t,
                            None => DEFAULT_WAIT_TIMEOUT_MS,
                        },
                        poll_interval_ms: match poll_interval_ms {
                            Some(t) => t,
                            None => DEFAULT_POLL_INTERVAL_MS,
                        },
                    },
                )
            },
            None => {
                if rescan {
                    return Err(validation_error("`--rescan` requires a folder prepare workflow."));
                }
                if wait_mode.is_some() {
                    return Err(validation_error("`--wait-mode` requires a folder prepare workflow."));
                }
                if wait_timeout_ms.is_some() {
                    return Err(validation_error("`--wait-timeout-ms` requires a folder prepare workflow."));
                }
                if poll_interval_ms.is_some() {
                    return Err(validation_error("`--poll-interval-ms` requires a folder prepare workflow."));
                }
                match library_id {
                    Some(id) => {
                        if all_libraries {
                            return Err(validation_error(
                                "`--all-libraries` cannot be combined with `--library-id` in scope-only mode.",
                            ));
                        }
                        FindScope::Library { library_id: id }
                    },
                    None => {
                        if !all_libraries {
                            return Err(validation_error(
                                "Pass a folder, `--library-id <library_id>`, or `--all-libraries`.",
                            ));
                        }
                        if is_image {
                            return Err(image_scope_error());
                        }
                        FindScope::AllLibraries
                    },
                }
            },
        };
        Ok(FindCommand { scope, input, top_k, target_content_types })
    }
}


/// A local path as a `file://` URI: the path itself when it already is one.
pub open spec fn file_uri(path: Seq<char>) -> Seq<char> {
    if starts_with(path, "file://"@) {
        path
    } else {
        "file://"@ + path
    }
}

/// The `file://` URI of a local path (see `file_uri`).
pub fn local_file_uri(path: &str) -> (r: String)
    ensures
        r@ == file_uri(path@),
{
    let p = chars_of(path);
    if starts_with_chars(&p, &chars_of("file://")) {
        path.to_owned()
    } else {
        let mut u = chars_of("file://");
        append_chars(&mut u, &p);
        string_of(&u)
    }
}

/// The SHA-256 digest of a byte string, as `sha2` computes it.
pub uninterp spec fn sha256_of(data: Seq<u8>) -> Seq<u8>;

/// Calls `sha2::Sha256::digest`; its result is the SHA-256 digest of `data`, which is
/// 32 bytes long.
#[verifier::external_body]
fn sha256_digest(data: &[u8]) -> (r: Vec<u8>)
    ensures
        r@ == sha256_of(data@),
        r@.len() == 32,
{
    sha2::Sha256::digest(data).to_vec()
}

/// The lowercase hexadecimal digit of a value below 16.
pub open spec fn hex_digit(n: u8) -> char {
    if n < 10 {
        (48 + n) as char
    } else {
        (87 + n) as char
    }
}

/// The lowercase hexadecimal form of a byte string, two digits per byte, high nibble first.
pub open spec fn hex_of(bytes: Seq<u8>) -> Seq<char>
    decreases bytes.len(),
{
    if bytes.len() == 0 {
        seq![]
    } else {
        hex_of(bytes.drop_last()) + seq![hex_digit(bytes.last() / 16), hex_digit(bytes.last() % 16)]
    }
}

proof fn lemma_hex_of_len(bytes: Seq<u8>)
    ensures
        hex_of(bytes).len() == 2 * bytes.len(),
    decreases bytes.len(),
{
    if bytes.len() > 0 {
        lemma_hex_of_len(bytes.drop_last());
    }
}

fn hex_digit_exec(n: u8) -> (r: char)
    requires
        n < 16,
    ensures
        r == hex_digit(n),
{
    if n < 10 {
        (48u8 + n) as char
    } else {
        (87u8 + n) as char
    }
}

/// The first `len` hexadecimal digits of the SHA-256 digest of `bytes`.
pub fn sha256_hex_prefix(bytes: &[u8], len: usize) -> (r: String)
    ensures
        r@ == hex_of(sha256_of(bytes@)).take(if len < 64 { len as int } else { 64 }),
{
    let digest = sha256_digest(bytes);
    let mut out: Vec<char> = Vec::new();
    let mut i: usize = 0;
    while i < digest.len()
        invariant
            i <= digest.len(),
            digest@ == sha256_of(bytes@),
            out@ == hex_of(digest@.take(i as int)),
        decreases digest.len() - i,
    {
        let b = digest[i];
        out.push(hex_digit_exec(b / 16));
        out.push(hex_digit_exec(b % 16));
        assert(digest@.take(i + 1).drop_last() =~= digest@.take(i as int));
        i = i + 1;
    }
    assert(digest@.take(digest.len() as int) =~= digest@);
    proof {
        lemma_hex_of_len(digest@);
    }
    let n = if len < 64 { len } else { 64 };
    let mut r: Vec<char> = Vec::new();
    let mut k: usize = 0;
    while k < n
        invariant
            k <= n,
            n <= out.len(),
            r@ == out@.take(k as int),
        decreases n - k,
    {
        r.push(out[k]);
        assert(out@.take(k + 1) =~= out@.take(k as int).push(out@[k as int]));
        k = k + 1;
    }
    string_of(&r)
}

/// The last path segment that is not `.`, if any.
pub open spec fn last_named_segment(segs: Seq<Seq<char>>) -> Option<Seq<char>>
    decreases segs.len(),
{
    if segs.len() == 0 {
        None
    } else if segs.last() == seq!['.'] {
        last_named_segment(segs.drop_last())
    } else {
        Some(segs.last())
    }
}

/// The final component of a path when it is a name (`Path::file_name`): none for a path
/// that has no component, or whose last component is `..`.
pub open spec fn path_file_name(p: Seq<char>) -> Option<Seq<char>> {
    match last_named_segment(path_segments(p)) {
        Some(s) => if s == seq!['.', '.'] { None } else { Some(s) },
        None => None,
    }
}

/// Exec counterpart of `path_file_name`.
pub fn file_name_of(p: &str) -> (r: Option<String>)
    ensures
        opt_view(r) == path_file_name(p@),
{
    let segs = split_path_segments(&chars_of(p));
    let mut i = segs.len();
    assert(char_views(segs@).take(segs.len() as int) =~= char_views(segs@));
    while i > 0
        invariant
            i <= segs.len(),
            last_named_segment(path_segments(p@)) == last_named_segment(char_views(segs@).take(i as int)),
        decreases i,
    {
        let seg = &segs[i - 1];
        assert(char_views(segs@).take(i as int).last() == seg@);
        assert(char_views(segs@).take(i as int).drop_last() =~= char_views(segs@).take(i - 1));
        if seg.len() == 1 && seg[0] == '.' {
            assert(seg@ =~= seq!['.']);
            i = i - 1;
        } else {
            assert(seg@ != seq!['.']);
            if seg.len() == 2 && seg[0] == '.' && seg[1] == '.' {
                assert(seg@ =~= seq!['.', '.']);
                return None;
            }
            assert(seg@ != seq!['.', '.']);
            return Some(string_of(seg));
        }
    }
    assert(char_views(segs@).take(0) =~= Seq::<Seq<char>>::empty());
    None
}

/// The library that a folder find uses.
#[derive(Debug)]
pub struct LibrarySelection {
    pub library_id: String,
    pub display_name: String,
    /// Whether `faus find` created the library for the folder (and may create it again).
    pub managed: bool,
}

/// The name under which a folder's library is shown: the folder's final component, unless
/// it is blank or missing, else the whole path.
pub open spec fn folder_basename(folder_path: Seq<char>) -> Seq<char> {
    match path_file_name(folder_path) {
        Some(n) => if trim(n).len() > 0 { n } else { folder_path },
        None => folder_path,
    }
}

/// The library for a folder find: the given library, else one derived from the folder's
/// path, with an id made of `faus-find-` and 16 hexadecimal digits of the path's SHA-256.
pub open spec fn library_selection_is(library_id: Option<Seq<char>>, folder_path: Seq<char>, s: LibrarySelection) -> bool {
    match library_id {
        Some(id) => s.library_id@ == id && s.display_name@ == Seq::<char>::empty() && !s.managed,
        None => {
            &&& s.library_id@ == "faus-find-"@ + hex_of(sha256_of(vstd::utf8::encode_utf8(folder_path))).take(16)
            &&& s.display_name@ == "faus find: "@ + folder_basename(folder_path)
            &&& s.managed
        },
    }
}


/// The library for a folder find (see `library_selection_is`).
pub fn resolve_library_selection(library_id: Option<&str>, folder_path: &str) -> (r: LibrarySelection)
    ensures
        library_selection_is(crate::config::opt_str_view(library_id), folder_path@, r),
{
    match library_id {
        Some(id) => LibrarySelection { library_id: id.to_owned(), display_name: String::new(), managed: false },
        None => {
            let hash = sha256_hex_prefix(folder_path.as_bytes(), 16);
            let basename = match file_name_of(folder_path) {
                Some(n) => {
                    if trim_chars(&chars_of(n.as_str())).len() > 0 {
                        n
                    } else {
                        folder_path.to_owned()
                    }
                },
                None => folder_path.to_owned(),
            };
            let mut id = chars_of("faus-find-");
            append_chars(&mut id, &chars_of(hash.as_str()));
            let mut name = chars_of("faus find: ");
            append_chars(&mut name, &chars_of(basename.as_str()));
            LibrarySelection { library_id: string_of(&id), display_name: string_of(&name), managed: true }
        },
    }
}


/// The scope that a search request names.
#[derive(Debug)]
pub enum SearchRequestScope {
    Library(String),
    AllLibraries,
}

/// The JSON form of a search scope.
pub open spec fn scope_json(s: SearchRequestScope) -> JsonV {
    match s {
        SearchRequestScope::Library(id) => JsonV::Object(
            pairs_insert(pairs_insert(seq![], "kind"@, JsonV::Str("library"@)), "library_id"@, JsonV::Str(id@)),
        ),
        SearchRequestScope::AllLibraries => JsonV::Object(
            pairs_insert(seq![], "kind"@, JsonV::Str("all_libraries"@)),
        ),
    }
}

impl SearchRequestScope {
    /// The JSON form of the scope (see `scope_json`).
    pub fn to_json(&self) -> (r: Json)
        ensures
            json_model(r) == scope_json(*self),
    {
        let mut o = empty_members();
        match self {
            SearchRequestScope::Library(id) => {
                put_member(&mut o, "kind", json_string("library"));
                put_member(&mut o, "library_id", Json::Str(id.clone()));
            },
            SearchRequestScope::AllLibraries => {
                put_member(&mut o, "kind", json_string("all_libraries"));
            },
        }
        Json::Object(o)
    }

    /// The library that the scope names, if it names one.
    pub fn library_id(&self) -> (r: Option<String>)
        ensures
            match *self {
                SearchRequestScope::Library(id) => r matches Some(x) && x@ == id@,
                SearchRequestScope::AllLibraries => r is None,
            },
    {
        match self {
            SearchRequestScope::Library(id) => Some(id.clone()),
            SearchRequestScope::AllLibraries => None,
        }
    }
}

/// The members that every find search body carries: the path prefix filter, `top_k`, the
/// target content types when there are any, and the debug flag when it is set.
pub open spec fn common_search_fields(ps: Pairs, path_prefix: Option<Seq<char>>, c: FindCommand, debug: bool) -> Pairs {
    let p1 = match path_prefix {
        Some(pp) => pairs_insert(ps, "filters"@, JsonV::Object(pairs_insert(seq![], "path_prefix"@, JsonV::Str(pp)))),
        None => ps,
    };
    let p2 = match c.top_k {
        Some(k) => pairs_insert(p1, "top_k"@, JsonV::Number(crate::text::decimal(k as nat))),
        None => p1,
    };
    let p3 = if c.target_content_types.len() > 0 {
        pairs_insert(
            p2,
            "target_content_types"@,
            JsonV::Array(string_views(c.target_content_types@).map_values(|s: Seq<char>| JsonV::Str(s))),
        )
    } else {
        p2
    };
    if debug { pairs_insert(p3, "debug"@, JsonV::Bool(true)) } else { p3 }
}

fn insert_common_search_fields(body: &mut Vec<(String, Json)>, path_prefix: Option<&str>, command: &FindCommand, debug: bool)
    ensures
        crate::json::pairs_model(final(body)@) == common_search_fields(
            crate::json::pairs_model(old(body)@),
            crate::config::opt_str_view(path_prefix),
            *command,
            debug,
        ),
{
    match path_prefix {
        Some(pp) => {
            let mut filters = empty_members();
            put_member(&mut filters, "path_prefix", json_string(pp));
            put_member(body, "filters", Json::Object(filters));
        },
        None => {},
    }
    match command.top_k {
        Some(k) => put_member(body, "top_k", json_u64(k as u64)),
        None => {},
    }
    if command.target_content_types.len() > 0 {
        put_member(body, "target_content_types", json_strings(&command.target_content_types));
    }
    if debug {
        put_member(body, "debug", Json::Bool(true));
    }
}

/// The body of a text search request.
pub open spec fn text_search_json(text: Seq<char>, scope: SearchRequestScope, path_prefix: Option<Seq<char>>, c: FindCommand, debug: bool) -> JsonV {
    let p = pairs_insert(pairs_insert(seq![], "text"@, JsonV::Str(text)), "search_scope"@, scope_json(scope));
    JsonV::Object(common_search_fields(p, path_prefix, c, debug))
}

/// The body of a text search request (see `text_search_json`).
pub fn text_search_body(text: &str, scope: &SearchRequestScope, path_prefix: Option<&str>, command: &FindCommand, debug: bool) -> (r: Json)
    ensures
        json_model(r) == text_search_json(text@, *scope, crate::config::opt_str_view(path_prefix), *command, debug),
{
    let mut body = empty_members();
    put_member(&mut body, "text", json_string(text));
    put_member(&mut body, "search_scope", scope.to_json());
    insert_common_search_fields(&mut body, path_prefix, command, debug);
    Json::Object(body)
}

/// The body of an image search request by an uploaded query asset.
pub open spec fn image_search_json(scope: SearchRequestScope, temp_asset_id: Seq<char>, path_prefix: Option<Seq<char>>, c: FindCommand, debug: bool) -> JsonV {
    let p0 = match scope {
        SearchRequestScope::Library(id) => pairs_insert(seq![], "library_id"@, JsonV::Str(id@)),
        SearchRequestScope::AllLibraries => seq![],
    };
    let p1 = pairs_insert(p0, "search_scope"@, scope_json(scope));
    let input = JsonV::Object(
        pairs_insert(pairs_insert(seq![], "kind"@, JsonV::Str("temp_asset"@)), "temp_asset_id"@, JsonV::Str(temp_asset_id)),
    );
    JsonV::Object(common_search_fields(pairs_insert(p1, "image_input"@, input), path_prefix, c, debug))
}

/// The body of an image search request (see `image_search_json`).
pub fn image_search_body(scope: &SearchRequestScope, temp_asset_id: &str, path_prefix: Option<&str>, command: &FindCommand, debug: bool) -> (r: Json)
    ensures
        json_model(r) == image_search_json(*scope, temp_asset_id@, crate::config::opt_str_view(path_prefix), *command, debug),
{
    let mut body = empty_members();
    match scope {
        SearchRequestScope::Library(id) => put_member(&mut body, "library_id", Json::Str(id.clone())),
        SearchRequestScope::AllLibraries => {},
    }
    put_member(&mut body, "search_scope", scope.to_json());
    let mut input = empty_members();
    put_member(&mut input, "kind", json_string("temp_asset"));
    put_member(&mut input, "temp_asset_id", json_string(temp_asset_id));
    put_member(&mut body, "image_input", Json::Object(input));
    insert_common_search_fields(&mut body, path_prefix, command, debug);
    Json::Object(body)
}


/// `loc` with the member `field` of a search result copied in, or the fallback string
/// when the result has no such member.
pub open spec fn location_field(loc: Pairs, result: JsonV, field: Seq<char>, fallback: Option<Seq<char>>) -> Pairs {
    match member(result, field) {
        Some(v) => pairs_insert(loc, field, v),
        None => match fallback {
            Some(f) => pairs_insert(loc, field, JsonV::Str(f)),
            None => loc,
        },
    }
}

/// The location of a search result: its library and source root (falling back to the
/// given ones) and its source, asset, URI, types, locator, preview and job members.
pub open spec fn result_location(r: JsonV, library_id: Option<Seq<char>>, source_root_id: Option<Seq<char>>) -> Pairs {
    let l1 = location_field(seq![], r, "library_id"@, library_id);
    let l2 = location_field(l1, r, "source_root_id"@, source_root_id);
    let l3 = location_field(l2, r, "source_id"@, None);
    let l4 = location_field(l3, r, "asset_id"@, None);
    let l5 = location_field(l4, r, "source_uri"@, None);
    let l6 = location_field(l5, r, "source_type"@, None);
    let l7 = location_field(l6, r, "asset_type"@, None);
    let l8 = location_field(l7, r, "locator"@, None);
    let l9 = location_field(l8, r, "preview"@, None);
    location_field(l9, r, "job_id"@, None)
}

/// A search result with its `locations` member added.
pub open spec fn wrapped_result(r: JsonV, library_id: Option<Seq<char>>, source_root_id: Option<Seq<char>>) -> JsonV {
    match r {
        JsonV::Object(ps) => JsonV::Object(
            pairs_insert(ps, "locations"@, JsonV::Array(seq![JsonV::Object(result_location(r, library_id, source_root_id))])),
        ),
        _ => r,
    }
}

fn insert_location_field(location: &mut Vec<(String, Json)>, result: &Json, field: &str, fallback: Option<&str>)
    ensures
        crate::json::pairs_model(final(location)@) == location_field(
            crate::json::pairs_model(old(location)@),
            json_model(*result),
            field@,
            crate::config::opt_str_view(fallback),
        ),
{
    match get_member_of(result, field) {
        Some(v) => put_member(location, field, clone_json(v)),
        None => match fallback {
            Some(f) => put_member(location, field, json_string(f)),
            None => {},
        },
    }
}

fn location_of(result: &Json, library_id: Option<&str>, source_root_id: Option<&str>) -> (r: Vec<(String, Json)>)
    ensures
        crate::json::pairs_model(r@) == result_location(
            json_model(*result),
            crate::config::opt_str_view(library_id),
            crate::config::opt_str_view(source_root_id),
        ),
{
    let mut location = empty_members();
    insert_location_field(&mut location, result, "library_id", library_id);
    insert_location_field(&mut location, result, "source_root_id", source_root_id);
    insert_location_field(&mut location, result, "source_id", None);
    insert_location_field(&mut location, result, "asset_id", None);
    insert_location_field(&mut location, result, "source_uri", None);
    insert_location_field(&mut location, result, "source_type", None);
    insert_location_field(&mut location, result, "asset_type", None);
    insert_location_field(&mut location, result, "locator", None);
    insert_location_field(&mut location, result, "preview", None);
    insert_location_field(&mut location, result, "job_id", None);
    location
}

/// The results of a search response, each with its location added; an error when a result
/// is not an object.
pub fn wrap_find_results(search: &Json, library_id: Option<&str>, source_root_id: Option<&str>) -> (r: Result<Json, CliError>)
    requires
        member(json_model(*search), "results"@) matches Some(JsonV::Array(_)),
    ensures
        match member(json_model(*search), "results"@) {
            Some(JsonV::Array(items)) => if forall|i: int| 0 <= i < items.len() ==> (#[trigger] items[i]) is Object {
                r matches Ok(w) && json_model(w) == JsonV::Array(items.map_values(
                    |x: JsonV| wrapped_result(x, crate::config::opt_str_view(library_id), crate::config::opt_str_view(source_root_id)),
                ))
            } else {
                r matches Err(e) && plain_error_is(e, "invalid_response"@, "Search results must be JSON objects."@, None)
            },
            _ => false,
        },
{
    let results = match get_member_of(search, "results") {
        Some(Json::Array(items)) => items,
        _ => {
            return Err(CliError::new("invalid_response", "Search results must be JSON objects."));
        },
    };
    let ghost m = crate::json::items_model(results@);
    let ghost lib = crate::config::opt_str_view(library_id);
    let ghost root = crate::config::opt_str_view(source_root_id);
    let mut wrapped: Vec<Json> = Vec::new();
    let mut i: usize = 0;
    while i < results.len()
        invariant
            i <= results.len(),
            m == crate::json::items_model(results@),
            member(json_model(*search), "results"@) == Some(JsonV::Array(m)),
            lib == crate::config::opt_str_view(library_id),
            root == crate::config::opt_str_view(source_root_id),
            forall|k: int| 0 <= k < i ==> (#[trigger] m[k]) is Object,
            crate::json::items_model(wrapped@) == m.take(i as int).map_values(|x: JsonV| wrapped_result(x, lib, root)),
        decreases results.len() - i,
    {
        let result = &results[i];
        assert(m[i as int] == json_model(*result));
        match result {
            Json::Object(ps) => {
                let mut output = clone_pairs(ps);
                let location = location_of(result, library_id, source_root_id);
                let mut one: Vec<Json> = Vec::new();
                one.push(Json::Object(location));
                proof {
                    assert(crate::json::items_model(one@) =~= seq![JsonV::Object(result_location(m[i as int], lib, root))]);
                }
                put_member(&mut output, "locations", Json::Array(one));
                let ghost before = wrapped@;
                wrapped.push(Json::Object(output));
                proof {
                    assert(crate::json::items_model(wrapped@) =~= crate::json::items_model(before).push(
                        wrapped_result(m[i as int], lib, root),
                    ));
                    assert(m.take(i + 1) =~= m.take(i as int).push(m[i as int]));
                    assert(m.take(i + 1).map_values(|x: JsonV| wrapped_result(x, lib, root)) =~= m.take(i as int).map_values(
                        |x: JsonV| wrapped_result(x, lib, root),
                    ).push(wrapped_result(m[i as int], lib, root)));
                }
            },
            _ => {
                assert(!(m[i as int] is Object));
                return Err(CliError::new("invalid_response", "Search results must be JSON objects."));
            },
        }
        i = i + 1;
    }
    assert(m.take(results.len() as int) =~= m);
    Ok(Json::Array(wrapped))
}

/// The number of results in a search response (none when it has no results array).
pub open spec fn result_count(search: JsonV) -> nat {
    match member(search, "results"@) {
        Some(JsonV::Array(items)) => items.len(),
        _ => 0,
    }
}

/// Exec counterpart of `result_count`.
pub fn search_result_count(search: &Json) -> (r: usize)
    ensures
        r == result_count(json_model(*search)),
{
    match get_member_of(search, "results") {
        Some(Json::Array(items)) => {
            assert(crate::json::items_model(items@).len() == items.len());
            items.len()
        },
        _ => 0,
    }
}

/// The job of a source-root action: its `job_handle`, else the `job_id` of its `job`.
pub open spec fn action_job(action: JsonV) -> Option<Seq<char>> {
    match str_member(action, "job_handle"@) {
        Some(h) => Some(h),
        None => match member(action, "job"@) {
            Some(job) => str_member(job, "job_id"@),
            None => None,
        },
    }
}

/// Exec counterpart of `action_job`.
pub fn action_job_id(action: &Json) -> (r: Option<String>)
    ensures
        opt_view(r) == action_job(json_model(*action)),
{
    match string_field(action, "job_handle") {
        Some(h) => Some(h),
        None => match get_member_of(action, "job") {
            Some(job) => string_field(job, "job_id"),
            None => None,
        },
    }
}

/// Whether a source-root action rejected any root.
pub open spec fn action_was_rejected(action: JsonV) -> bool {
    match member(action, "rejected"@) {
        Some(JsonV::Array(items)) => items.len() > 0,
        _ => false,
    }
}

/// Exec counterpart of `action_was_rejected`.
pub fn action_rejected(action: &Json) -> (r: bool)
    ensures
        r == action_was_rejected(json_model(*action)),
{
    match get_member_of(action, "rejected") {
        Some(Json::Array(items)) => {
            assert(crate::json::items_model(items@).len() == items.len());
            items.len() > 0
        },
        _ => false,
    }
}

/// The string member `field` of a response object; an `invalid_response` error when it is
/// missing or not a string.
pub fn required_string_field(value: &Json, field: &str) -> (r: Result<String, CliError>)
    ensures
        match str_member(json_model(*value), field@) {
            Some(s) => r matches Ok(x) && x@ == s,
            None => r matches Err(e) && plain_error_is(
                e,
                "invalid_response"@,
                "Response object is missing `"@ + field@ + "` string."@,
                None,
            ),
        },
{
    match string_field(value, field) {
        Some(s) => Ok(s),
        None => {
            let mut m = chars_of("Response object is missing `");
            append_str(&mut m, field);
            append_str(&mut m, "` string.");
            let e = CliError::new("invalid_response", "");
            Err(CliError { message: string_of(&m), ..e })
        },
    }
}


/// The hint of a response that does not follow the App API's envelope.
pub open spec fn envelope_hint() -> Seq<char> {
    "The server responded, but the payload did not match the FauniSearch App API contract."@
}

/// `e` reports that the response from `url` was not the success envelope `expected`.
pub open spec fn invalid_envelope_is(e: CliError, url: Seq<char>, expected: Seq<char>) -> bool {
    plain_error_is(e, "invalid_response"@, url + " did not return a SuccessEnvelope "@ + expected, Some(envelope_hint()))
}

/// The error of a response from `url` that is not the success envelope `expected`.
pub fn invalid_success_envelope(url: &str, expected: &str) -> (r: CliError)
    ensures
        invalid_envelope_is(r, url@, expected@),
{
    let mut m = chars_of(url);
    append_str(&mut m, " did not return a SuccessEnvelope ");
    append_str(&mut m, expected);
    let e = CliError::new("invalid_response", "")
        .with_hint("The server responded, but the payload did not match the FauniSearch App API contract.");
    CliError { message: string_of(&m), ..e }
}

/// What a member of an envelope's data must be.
#[derive(Debug, Clone, Copy, PartialEq, Eq, Structural)]
pub enum MemberShape {
    Str,
    Array,
}

/// Whether a document has the shape.
pub open spec fn has_shape(v: JsonV, shape: MemberShape) -> bool {
    match shape {
        MemberShape::Str => v is Str,
        MemberShape::Array => v is Array,
    }
}

/// The `data` object of a success envelope whose member `key` has `shape`: the error
/// `missing` when there is no `data`, and `bad` when `data` is not such an object.
pub open spec fn envelope_data(value: JsonV, key: Seq<char>, shape: MemberShape) -> Result<JsonV, bool> {
    match member(value, "data"@) {
        None => Err(false),
        Some(d) => if member_has_shape(d, key, shape) {
            Ok(d)
        } else {
            Err(true)
        },
    }
}

/// `d` is an object whose member `key` has `shape`.
pub open spec fn member_has_shape(d: JsonV, key: Seq<char>, shape: MemberShape) -> bool {
    d is Object && match member(d, key) {
        Some(x) => has_shape(x, shape),
        None => false,
    }
}

/// The `data` object of a source-root action response, which must hold `accepted` and
/// `rejected` arrays; errors as in `envelope_data`.
pub open spec fn action_data(value: JsonV) -> Result<JsonV, bool> {
    match member(value, "data"@) {
        None => Err(false),
        Some(d) => if member_has_shape(d, "accepted"@, MemberShape::Array) && member_has_shape(
            d,
            "rejected"@,
            MemberShape::Array,
        ) {
            Ok(d)
        } else {
            Err(true)
        },
    }
}

/// Checks the `data` object of a success envelope (see `envelope_data`).
pub fn envelope_data_with(value: &Json, url: &str, key: &str, shape: MemberShape, missing: &str, bad: &str) -> (r: Result<Json, CliError>)
    ensures
        match envelope_data(json_model(*value), key@, shape) {
            Ok(d) => r matches Ok(x) && json_model(x) == d,
            Err(false) => r matches Err(e) && invalid_envelope_is(e, url@, missing@),
            Err(true) => r matches Err(e) && invalid_envelope_is(e, url@, bad@),
        },
{
    match get_member_of(value, "data") {
        None => Err(invalid_success_envelope(url, missing)),
        Some(d) => {
            let ok = match d {
                Json::Object(_) => match get_member_of(d, key) {
                    Some(Json::Str(_)) => shape == MemberShape::Str,
                    Some(Json::Array(_)) => shape == MemberShape::Array,
                    _ => false,
                },
                _ => false,
            };
            if ok {
                Ok(clone_json(d))
            } else {
                Err(invalid_success_envelope(url, bad))
            }
        },
    }
}

/// The library object of a library response.
pub fn library_from_envelope(value: &Json, url: &str) -> (r: Result<Json, CliError>)
    ensures
        match envelope_data(json_model(*value), "id"@, MemberShape::Str) {
            Ok(d) => r matches Ok(x) && json_model(x) == d,
            Err(false) => r matches Err(e) && invalid_envelope_is(e, url@, "data library object"@),
            Err(true) => r matches Err(e) && invalid_envelope_is(e, url@, "data.id string"@),
        },
{
    envelope_data_with(value, url, "id", MemberShape::Str, "data library object", "data.id string")
}

/// The action object of a source-root action response.
pub fn action_from_envelope(value: &Json, url: &str) -> (r: Result<Json, CliError>)
    ensures
        match action_data(json_model(*value)) {
            Ok(d) => r matches Ok(x) && json_model(x) == d,
            Err(false) => r matches Err(e) && invalid_envelope_is(
                e,
                url@,
                "data action object with accepted and rejected arrays"@,
            ),
            Err(true) => r matches Err(e) && invalid_envelope_is(e, url@, "data.accepted and data.rejected arrays"@),
        },
{
    match get_member_of(value, "data") {
        None => Err(invalid_success_envelope(url, "data action object with accepted and rejected arrays")),
        Some(d) => {
            let ok = match d {
                Json::Object(_) => {
                    let a = match get_member_of(d, "accepted") {
                        Some(Json::Array(_)) => true,
                        _ => false,
                    };
                    let b = match get_member_of(d, "rejected") {
                        Some(Json::Array(_)) => true,
                        _ => false,
                    };
                    a && b
                },
                _ => false,
            };
            if ok {
                Ok(clone_json(d))
            } else {
                Err(invalid_success_envelope(url, "data.accepted and data.rejected arrays"))
            }
        },
    }
}

/// The job object of a job response.
pub fn job_from_envelope(value: &Json, url: &str) -> (r: Result<Json, CliError>)
    ensures
        match envelope_data(json_model(*value), "job_id"@, MemberShape::Str) {
            Ok(d) => r matches Ok(x) && json_model(x) == d,
            Err(false) => r matches Err(e) && invalid_envelope_is(e, url@, "data job object"@),
            Err(true) => r matches Err(e) && invalid_envelope_is(e, url@, "data.job_id string"@),
        },
{
    envelope_data_with(value, url, "job_id", MemberShape::Str, "data job object", "data.job_id string")
}

/// The query asset object of an upload response.
pub fn query_asset_from_envelope(value: &Json, url: &str) -> (r: Result<Json, CliError>)
    ensures
        match envelope_data(json_model(*value), "temp_asset_id"@, MemberShape::Str) {
            Ok(d) => r matches Ok(x) && json_model(x) == d,
            Err(false) => r matches Err(e) && invalid_envelope_is(e, url@, "data object with temp_asset_id"@),
            Err(true) => r matches Err(e) && invalid_envelope_is(e, url@, "data.temp_asset_id string"@),
        },
{
    envelope_data_with(
        value,
        url,
        "temp_asset_id",
        MemberShape::Str,
        "data object with temp_asset_id",
        "data.temp_asset_id string",
    )
}

/// The search object of a search response.
pub fn search_from_envelope(value: &Json, url: &str) -> (r: Result<Json, CliError>)
    ensures
        match envelope_data(json_model(*value), "results"@, MemberShape::Array) {
            Ok(d) => r matches Ok(x) && json_model(x) == d,
            Err(false) => r matches Err(e) && invalid_envelope_is(e, url@, "data object with results array"@),
            Err(true) => r matches Err(e) && invalid_envelope_is(e, url@, "data.results array"@),
        },
{
    envelope_data_with(
        value,
        url,
        "results",
        MemberShape::Array,
        "data object with results array",
        "data.results array",
    )
}

/// The source roots array of a source-root list response.
pub fn source_roots_from_envelope(value: &Json, url: &str) -> (r: Result<Json, CliError>)
    ensures
        match member(json_model(*value), "data"@) {
            Some(d) => match member(d, "source_roots"@) {
                Some(JsonV::Array(items)) => r matches Ok(x) && json_model(x) == JsonV::Array(items),
                _ => r matches Err(e) && invalid_envelope_is(e, url@, "data.source_roots array"@),
            },
            None => r matches Err(e) && invalid_envelope_is(e, url@, "data.source_roots array"@),
        },
{
    let roots = match get_member_of(value, "data") {
        Some(d) => get_member_of(d, "source_roots"),
        None => None,
    };
    match roots {
        Some(Json::Array(items)) => Ok(clone_json(roots.unwrap())),
        _ => Err(invalid_success_envelope(url, "data.source_roots array")),
    }
}

/// The source root object of a source-root response: `data.source_root`, or `data` itself
/// when it has no such member.
pub fn source_root_from_envelope(value: &Json, url: &str) -> (r: Result<Json, CliError>)
    ensures
        match member(json_model(*value), "data"@) {
            None => r matches Err(e) && invalid_envelope_is(e, url@, "data source root object"@),
            Some(d) => {
                let root = match member(d, "source_root"@) {
                    Some(x) => x,
                    None => d,
                };
                if root is Object && str_member(root, "source_root_id"@) is Some {
                    r matches Ok(x) && json_model(x) == root
                } else {
                    r matches Err(e) && invalid_envelope_is(e, url@, "data.source_root_id string"@)
                }
            },
        },
{
    match get_member_of(value, "data") {
        None => Err(invalid_success_envelope(url, "data source root object")),
        Some(d) => {
            let root = match get_member_of(d, "source_root") {
                Some(x) => x,
                None => d,
            };
            let ok = match root {
                Json::Object(_) => string_field(root, "source_root_id").is_some(),
                _ => false,
            };
            if ok {
                Ok(clone_json(root))
            } else {
                Err(invalid_success_envelope(url, "data.source_root_id string"))
            }
        },
    }
}


/// The library, source root, action and job of a folder's prepare step.
#[derive(Debug)]
pub struct PrepareContext {
    pub library_id: String,
    pub source_root_id: String,
    pub action: String,
    pub job_id: String,
}

/// The details attached to a prepare error: the context and the last job seen.
pub open spec fn prepare_details(c: PrepareContext, job: JsonV) -> JsonV {
    let p1 = pairs_insert(seq![], "library_id"@, JsonV::Str(c.library_id@));
    let p2 = pairs_insert(p1, "source_root_id"@, JsonV::Str(c.source_root_id@));
    let p3 = pairs_insert(p2, "action"@, JsonV::Str(c.action@));
    let p4 = pairs_insert(p3, "job_id"@, JsonV::Str(c.job_id@));
    JsonV::Object(pairs_insert(p4, "last_job"@, job))
}

/// The details of a prepare error (see `prepare_details`).
pub fn prepare_error_details(context: &PrepareContext, job: &Json) -> (r: Json)
    ensures
        json_model(r) == prepare_details(*context, json_model(*job)),
{
    let mut d = empty_members();
    put_member(&mut d, "library_id", Json::Str(context.library_id.clone()));
    put_member(&mut d, "source_root_id", Json::Str(context.source_root_id.clone()));
    put_member(&mut d, "action", Json::Str(context.action.clone()));
    put_member(&mut d, "job_id", Json::Str(context.job_id.clone()));
    put_member(&mut d, "last_job", clone_json(job));
    Json::Object(d)
}

/// What to do after a poll of a prepare job.
#[derive(Debug)]
pub enum WaitDecision {
    /// Stop waiting and go on with the search.
    Finish,
    /// Stop waiting and report the search's own error.
    FinishWithSearchError,
    /// Stop with this error.
    Fail(CliError),
    /// Sleep for the poll interval and poll again.
    Poll,
}

/// The status of a job document, when it is a string.
pub open spec fn job_status(job: JsonV) -> Option<Seq<char>> {
    str_member(job, "status"@)
}

/// A status that ends a job without success.
pub open spec fn is_failed_status(s: Seq<char>) -> bool {
    s == "failed"@ || s == "canceled"@
}

/// A status of a job that has not ended.
pub open spec fn is_pending_status(s: Option<Seq<char>>) -> bool {
    s is None || s == Some("queued"@) || s == Some("running"@)
}

/// The decision of a poll that found the job still pending: an error once the timeout has
/// passed, else another poll.
pub open spec fn timeout_or_poll(d: WaitDecision, elapsed_ms: u64, timeout_ms: u64, message: Seq<char>, hint: Seq<char>, details: JsonV) -> bool {
    if elapsed_ms >= timeout_ms {
        d matches WaitDecision::Fail(e) && error_is(e, "wait_timeout"@, message, Some(hint), Some(details), Some(true))
    } else {
        d is Poll
    }
}

/// The decision after polling the prepare job in complete mode: finish once it completed,
/// fail when it failed, was canceled or reports an unknown status, and otherwise wait until
/// the timeout.
pub open spec fn prepare_wait_decision(c: PrepareContext, job: JsonV, elapsed_ms: u64, timeout_ms: u64, d: WaitDecision) -> bool {
    let details = prepare_details(c, job);
    let status = job_status(job);
    if status == Some("completed"@) {
        d is Finish
    } else if status matches Some(s) && is_failed_status(s) {
        d matches WaitDecision::Fail(e) && error_is(
            e,
            "prepare_failed"@,
            "Prepare job `"@ + c.job_id@ + "` reached terminal status `"@ + status.unwrap() + "`."@,
            None,
            Some(details),
            None,
        )
    } else if is_pending_status(status) {
        timeout_or_poll(
            d,
            elapsed_ms,
            timeout_ms,
            "Timed out waiting for prepare job `"@ + c.job_id@ + "` to complete."@,
            "Retry with a larger `--wait-timeout-ms`, or inspect the job with `faus jobs show`."@,
            details,
        )
    } else {
        d matches WaitDecision::Fail(e) && error_is(
            e,
            "invalid_response"@,
            "Prepare job `"@ + c.job_id@ + "` returned unknown status `"@ + status.unwrap() + "`."@,
            None,
            Some(details),
            None,
        )
    }
}

fn context_error(code: &str, parts: &Vec<char>, context: &PrepareContext, job: &Json) -> (r: CliError)
    ensures
        error_is(r, code@, parts@, None, Some(prepare_details(*context, json_model(*job))), None),
{
    let e = CliError::new(code, "").with_details(prepare_error_details(context, job));
    CliError { message: string_of(parts), ..e }
}

fn str_is(s: &Option<String>, lit: &str) -> (r: bool)
    ensures
        r == (opt_view(*s) == Some(lit@)),
{
    match s {
        Some(v) => chars_eq(&chars_of(v.as_str()), &chars_of(lit)),
        None => false,
    }
}

fn pending_timeout(context: &PrepareContext, job: &Json, elapsed_ms: u64, timeout_ms: u64, partial: bool) -> (r: WaitDecision)
    ensures
        timeout_or_poll(
            r,
            elapsed_ms,
            timeout_ms,
            if partial {
                "Timed out waiting for active results from prepare job `"@ + context.job_id@ + "`."@
            } else {
                "Timed out waiting for prepare job `"@ + context.job_id@ + "` to complete."@
            },
            if partial {
                "Retry with a larger `--wait-timeout-ms`, use default complete mode, or inspect the job with `faus jobs show`."@
            } else {
                "Retry with a larger `--wait-timeout-ms`, or inspect the job with `faus jobs show`."@
            },
            prepare_details(*context, json_model(*job)),
        ),
{
    if elapsed_ms >= timeout_ms {
        let mut m: Vec<char>;
        let hint: &str;
        if partial {
            m = chars_of("Timed out waiting for active results from prepare job `");
            append_chars(&mut m, &chars_of(context.job_id.as_str()));
            append_str(&mut m, "`.");
            hint = "Retry with a larger `--wait-timeout-ms`, use default complete mode, or inspect the job with `faus jobs show`.";
        } else {
            m = chars_of("Timed out waiting for prepare job `");
            append_chars(&mut m, &chars_of(context.job_id.as_str()));
            append_str(&mut m, "` to complete.");
            hint = "Retry with a larger `--wait-timeout-ms`, or inspect the job with `faus jobs show`.";
        }
        let e = context_error("wait_timeout", &m, context, job).with_hint(hint).with_retryable(true);
        WaitDecision::Fail(e)
    } else {
        WaitDecision::Poll
    }
}

fn status_message(prefix: &str, job_id: &String, middle: &str, status: &String, suffix: &str) -> (r: Vec<char>)
    ensures
        r@ == prefix@ + job_id@ + middle@ + status@ + suffix@,
{
    let mut m = chars_of(prefix);
    append_chars(&mut m, &chars_of(job_id.as_str()));
    append_str(&mut m, middle);
    append_chars(&mut m, &chars_of(status.as_str()));
    append_str(&mut m, suffix);
    m
}

/// Decides what follows a poll of the prepare job in complete mode (see
/// `prepare_wait_decision`); `elapsed_ms` is the time since waiting began.
pub fn prepare_wait_step(context: &PrepareContext, job: &Json, elapsed_ms: u64, timeout_ms: u64) -> (r: WaitDecision)
    ensures
        prepare_wait_decision(*context, json_model(*job), elapsed_ms, timeout_ms, r),
{
    let status = string_field(job, "status");
    if str_is(&status, "completed") {
        return WaitDecision::Finish;
    }
    if str_is(&status, "failed") || str_is(&status, "canceled") {
        let s = status.unwrap();
        let m = status_message("Prepare job `", &context.job_id, "` reached terminal status `", &s, "`.");
        return WaitDecision::Fail(context_error("prepare_failed", &m, context, job));
    }
    if status.is_none() || str_is(&status, "queued") || str_is(&status, "running") {
        return pending_timeout(context, job, elapsed_ms, timeout_ms, false);
    }
    let s = status.unwrap();
    let m = status_message("Prepare job `", &context.job_id, "` returned unknown status `", &s, "`.");
    WaitDecision::Fail(context_error("invalid_response", &m, context, job))
}


/// The message of a prepare job that ended without success before results were active.
pub open spec fn early_end_message(c: PrepareContext, status: Seq<char>) -> Seq<char> {
    "Prepare job `"@ + c.job_id@ + "` reached terminal status `"@ + status
        + "` before active results were available."@
}

/// The decision after a search and a poll of the prepare job in partial mode. `results` is
/// the number of results of a search that succeeded, or none when the search reported that
/// the library is not ready. A search with results finishes; otherwise a completed job
/// finishes (with the search's own error when it was not ready), a failed or canceled one
/// fails, and a pending one is waited for until the timeout. An unknown status fails after
/// a successful search and is waited on after a not-ready one.
pub open spec fn partial_wait_decision(
    c: PrepareContext,
    results: Option<nat>,
    job: JsonV,
    elapsed_ms: u64,
    timeout_ms: u64,
    d: WaitDecision,
) -> bool {
    let details = prepare_details(c, job);
    let status = job_status(job);
    let waiting = timeout_or_poll(
        d,
        elapsed_ms,
        timeout_ms,
        "Timed out waiting for active results from prepare job `"@ + c.job_id@ + "`."@,
        "Retry with a larger `--wait-timeout-ms`, use default complete mode, or inspect the job with `faus jobs show`."@,
        details,
    );
    if results matches Some(n) && n > 0 {
        d is Finish
    } else if status == Some("completed"@) {
        if results is Some { d is Finish } else { d is FinishWithSearchError }
    } else if status matches Some(s) && is_failed_status(s) {
        d matches WaitDecision::Fail(e) && error_is(
            e,
            "prepare_failed"@,
            early_end_message(c, status.unwrap()),
            None,
            Some(details),
            None,
        )
    } else if is_pending_status(status) || results is None {
        waiting
    } else {
        d matches WaitDecision::Fail(e) && error_is(
            e,
            "invalid_response"@,
            "Prepare job `"@ + c.job_id@ + "` returned unknown status `"@ + status.unwrap() + "`."@,
            None,
            Some(details),
            None,
        )
    }
}

/// Decides what follows a search and a poll of the prepare job in partial mode (see
/// `partial_wait_decision`).
pub fn partial_wait_step(context: &PrepareContext, results: Option<usize>, job: &Json, elapsed_ms: u64, timeout_ms: u64) -> (r: WaitDecision)
    ensures
        partial_wait_decision(
            *context,
            match results {
                Some(n) => Some(n as nat),
                None => None,
            },
            json_model(*job),
            elapsed_ms,
            timeout_ms,
            r,
        ),
{
    match results {
        Some(n) => {
            if n > 0 {
                return WaitDecision::Finish;
            }
        },
        None => {},
    }
    let status = string_field(job, "status");
    if str_is(&status, "completed") {
        return if results.is_some() { WaitDecision::Finish } else { WaitDecision::FinishWithSearchError };
    }
    if str_is(&status, "failed") || str_is(&status, "canceled") {
        let s = status.unwrap();
        let m = status_message(
            "Prepare job `",
            &context.job_id,
            "` reached terminal status `",
            &s,
            "` before active results were available.",
        );
        return WaitDecision::Fail(context_error("prepare_failed", &m, context, job));
    }
    if status.is_none() || str_is(&status, "queued") || str_is(&status, "running") || results.is_none() {
        return pending_timeout(context, job, elapsed_ms, timeout_ms, true);
    }
    let s = status.unwrap();
    let m = status_message("Prepare job `", &context.job_id, "` returned unknown status `", &s, "`.");
    WaitDecision::Fail(context_error("invalid_response", &m, context, job))
}

/// Whether a failed search ends a partial wait at once: any error but `not_ready` does.
pub fn search_error_ends_wait(code: &str) -> (r: bool)
    ensures
        r == (code@ != "not_ready"@),
{
    !chars_eq(&chars_of(code), &chars_of("not_ready"))
}


/// The source-root action that prepares a folder.
pub open spec fn prepare_action_name(rescan: bool) -> Seq<char> {
    if rescan { "rescan"@ } else { "refresh"@ }
}

/// Exec counterpart of `prepare_action_name`.
pub fn prepare_action(rescan: bool) -> (r: &'static str)
    ensures
        r@ == prepare_action_name(rescan),
{
    if rescan { "rescan" } else { "refresh" }
}

/// The id of the folder's library: the `id` of the library object, else the requested
/// library, else the selected one.
pub fn folder_library_id(library: &Json, requested: Option<&str>, selected: &str) -> (r: String)
    ensures
        r@ == match str_member(json_model(*library), "id"@) {
            Some(id) => id,
            None => match crate::config::opt_str_view(requested) {
                Some(x) => x,
                None => selected@,
            },
        },
{
    match string_field(library, "id") {
        Some(id) => id,
        None => match requested {
            Some(x) => x.to_owned(),
            None => selected.to_owned(),
        },
    }
}

/// Whether a failed library lookup should create the library: only a managed library that
/// was not found is created.
pub fn should_create_library(error_code: &str, managed: bool) -> (r: bool)
    ensures
        r == (error_code@ == "not_found"@ && managed),
{
    managed && chars_eq(&chars_of(error_code), &chars_of("not_found"))
}

/// The body of a request that creates a folder's library.
pub fn library_create_body(selection: &LibrarySelection) -> (r: Json)
    ensures
        json_model(r) == JsonV::Object(pairs_insert(
            pairs_insert(seq![], "library_id"@, JsonV::Str(selection.library_id@)),
            "display_name"@,
            JsonV::Str(selection.display_name@),
        )),
{
    let mut b = empty_members();
    put_member(&mut b, "library_id", Json::Str(selection.library_id.clone()));
    put_member(&mut b, "display_name", Json::Str(selection.display_name.clone()));
    Json::Object(b)
}

/// The body of a request that creates a source root for a folder.
pub fn source_root_create_body(folder_path: &str) -> (r: Json)
    ensures
        json_model(r) == JsonV::Object(pairs_insert(seq![], "root_path"@, JsonV::Str(folder_path@))),
{
    let mut b = empty_members();
    put_member(&mut b, "root_path", json_string(folder_path));
    Json::Object(b)
}

/// The index of the first source root whose `root_path` is the folder.
pub open spec fn first_root_for(items: Seq<JsonV>, folder_path: Seq<char>) -> Option<int>
    decreases items.len(),
{
    if items.len() == 0 {
        None
    } else if str_member(items[0], "root_path"@) == Some(folder_path) {
        Some(0)
    } else {
        match first_root_for(items.drop_first(), folder_path) {
            Some(i) => Some(i + 1),
            None => None,
        }
    }
}

proof fn lemma_first_root_for(items: Seq<JsonV>, folder_path: Seq<char>)
    ensures
        first_root_for(items, folder_path) matches Some(k) ==> 0 <= k < items.len(),
    decreases items.len(),
{
    if items.len() > 0 {
        lemma_first_root_for(items.drop_first(), folder_path);
    }
}

/// The existing source root of the folder among listed source roots, if any.
pub fn existing_source_root(source_roots: &Json, folder_path: &str) -> (r: Option<Json>)
    ensures
        match json_model(*source_roots) {
            JsonV::Array(items) => match first_root_for(items, folder_path@) {
                Some(i) => r matches Some(x) && json_model(x) == items[i],
                None => r is None,
            },
            _ => r is None,
        },
{
    match source_roots {
        Json::Array(items) => {
            let ghost m = crate::json::items_model(items@);
            assert(json_model(*source_roots) == JsonV::Array(m));
            let mut i: usize = 0;
            assert(m.skip(0) =~= m);
            while i < items.len()
                invariant
                    i <= items.len(),
                    m == crate::json::items_model(items@),
                    json_model(*source_roots) == JsonV::Array(m),
                    match first_root_for(m, folder_path@) {
                        Some(k) => match first_root_for(m.skip(i as int), folder_path@) {
                            Some(j) => k == j + i,
                            None => false,
                        },
                        None => first_root_for(m.skip(i as int), folder_path@) is None,
                    },
                decreases items.len() - i,
            {
                assert(m.skip(i as int)[0] == m[i as int]);
                assert(m.skip(i as int).drop_first() =~= m.skip(i + 1));
                let root_path = string_field(&items[i], "root_path");
                let hit = match &root_path {
                    Some(p) => chars_eq(&chars_of(p.as_str()), &chars_of(folder_path)),
                    None => false,
                };
                assert(m[i as int] == json_model(items@[i as int]));
                if hit {
                    assert(first_root_for(m.skip(i as int), folder_path@) == Some(0int));
                    proof {
                        lemma_first_root_for(m, folder_path@);
                    }
                    assert(first_root_for(m, folder_path@) == Some(i as int));
                    let c = clone_json(&items[i]);
                    assert(json_model(c) == m[i as int]);
                    return Some(c);
                }
                i = i + 1;
            }
            None
        },
        _ => None,
    }
}

/// The error of a prepare action that queued no job because it was rejected.
pub fn rejected_prepare_error(library_id: &str, source_root_id: &str, action: &str, action_data: &Json) -> (r: CliError)
    ensures
        error_is(
            r,
            "prepare_failed"@,
            "The source-root prepare action was rejected and did not queue a job."@,
            None,
            Some(JsonV::Object(pairs_insert(
                pairs_insert(
                    pairs_insert(pairs_insert(seq![], "library_id"@, JsonV::Str(library_id@)), "source_root_id"@, JsonV::Str(source_root_id@)),
                    "action"@,
                    JsonV::Str(action@),
                ),
                "prepare"@,
                json_model(*action_data),
            ))),
            None,
        ),
{
    let mut d = empty_members();
    put_member(&mut d, "library_id", json_string(library_id));
    put_member(&mut d, "source_root_id", json_string(source_root_id));
    put_member(&mut d, "action", json_string(action));
    put_member(&mut d, "prepare", clone_json(action_data));
    CliError::new("prepare_failed", "The source-root prepare action was rejected and did not queue a job.").with_details(
        Json::Object(d),
    )
}

/// The prepare status that a find reports: `ready` for a completed job or when no job was
/// seen, else the job's status.
pub open spec fn prepare_status_of(last_job: Option<JsonV>) -> Seq<char> {
    match last_job {
        Some(job) => match job_status(job) {
            Some(s) => if s == "completed"@ { "ready"@ } else { s },
            None => "ready"@,
        },
        None => "ready"@,
    }
}

/// Exec counterpart of `prepare_status_of`.
pub fn prepare_status(last_job: Option<&Json>) -> (r: String)
    ensures
        r@ == prepare_status_of(match last_job {
            Some(j) => Some(json_model(*j)),
            None => None,
        }),
{
    match last_job {
        Some(job) => match string_field(job, "status") {
            Some(s) => {
                if chars_eq(&chars_of(s.as_str()), &chars_of("completed")) {
                    "ready".to_owned()
                } else {
                    s
                }
            },
            None => "ready".to_owned(),
        },
        None => "ready".to_owned(),
    }
}

/// The scope that a folder find reports.
pub fn folder_scope_json(library_id: &str, folder_uri: &str) -> (r: Json)
    ensures
        json_model(r) == JsonV::Object(pairs_insert(
            pairs_insert(pairs_insert(seq![], "kind"@, JsonV::Str("folder"@)), "library_id"@, JsonV::Str(library_id@)),
            "path_prefix"@,
            JsonV::Str(folder_uri@),
        )),
{
    let mut o = empty_members();
    put_member(&mut o, "kind", json_string("folder"));
    put_member(&mut o, "library_id", json_string(library_id));
    put_member(&mut o, "path_prefix", json_string(folder_uri));
    Json::Object(o)
}

/// One HTTP request that a find made, for its debug output.
#[derive(Debug)]
pub struct RequestTrace {
    pub label: String,
    pub method: String,
    pub url: String,
    pub status: u16,
}

/// The JSON form of a request trace.
pub open spec fn request_trace_json(t: RequestTrace) -> JsonV {
    let p1 = pairs_insert(seq![], "label"@, JsonV::Str(t.label@));
    let p2 = pairs_insert(p1, "method"@, JsonV::Str(t.method@));
    let p3 = pairs_insert(p2, "url"@, JsonV::Str(t.url@));
    JsonV::Object(pairs_insert(p3, "http_status"@, JsonV::Number(crate::text::decimal(t.status as nat))))
}

impl RequestTrace {
    /// A trace of a request.
    pub fn new(label: &str, method: &str, url: &str, status: u16) -> (r: RequestTrace)
        ensures
            r.label@ == label@,
            r.method@ == method@,
            r.url@ == url@,
            r.status == status,
    {
        RequestTrace { label: label.to_owned(), method: method.to_owned(), url: url.to_owned(), status }
    }

    /// The JSON form of the trace (see `request_trace_json`).
    pub fn to_json(&self) -> (r: Json)
        ensures
            json_model(r) == request_trace_json(*self),
    {
        let mut o = empty_members();
        put_member(&mut o, "label", Json::Str(self.label.clone()));
        put_member(&mut o, "method", Json::Str(self.method.clone()));
        put_member(&mut o, "url", Json::Str(self.url.clone()));
        put_member(&mut o, "http_status", json_u64(self.status as u64));
        Json::Object(o)
    }
}


/// The outcome of a find, before it is printed.
#[derive(Debug)]
pub struct FindResponse {
    pub scope: Json,
    pub folder_input: Option<String>,
    pub folder_path: Option<String>,
    pub library_id: Option<String>,
    pub source_root_id: Option<String>,
    pub reused_library: Option<bool>,
    pub reused_source_root: Option<bool>,
    pub prepare_status: String,
    pub prepare_action: String,
    pub wait_mode: String,
    pub job_id: Option<String>,
    pub results: Json,
    pub search_debug: Option<Json>,
    pub query_asset: Option<Json>,
    pub requests: Vec<RequestTrace>,
    pub job_poll_count: usize,
    pub last_job: Option<Json>,
}

/// An optional string as JSON: the string, or `null`.
pub open spec fn opt_str_json(o: Option<String>) -> JsonV {
    match o {
        Some(s) => JsonV::Str(s@),
        None => JsonV::Null,
    }
}

/// An optional document as JSON: the document, or `null`.
pub open spec fn opt_json(o: Option<Json>) -> JsonV {
    match o {
        Some(j) => json_model(j),
        None => JsonV::Null,
    }
}

/// The `library` member of a find's output.
pub open spec fn library_json(r: FindResponse) -> Pairs {
    let p1 = pairs_insert(seq![], "library_id"@, JsonV::Str(r.library_id.unwrap()@));
    let p2 = match r.source_root_id {
        Some(id) => pairs_insert(p1, "source_root_id"@, JsonV::Str(id@)),
        None => p1,
    };
    let p3 = match r.reused_library {
        Some(b) => pairs_insert(p2, "reused_library"@, JsonV::Bool(b)),
        None => p2,
    };
    match r.reused_source_root {
        Some(b) => pairs_insert(p3, "reused_source_root"@, JsonV::Bool(b)),
        None => p3,
    }
}

/// The `data` member of a find's JSON output.
pub open spec fn find_data_json(base_url: Seq<char>, r: FindResponse) -> Pairs {
    let p1 = pairs_insert(seq![], "base_url"@, JsonV::Str(base_url));
    let p2 = pairs_insert(p1, "scope"@, json_model(r.scope));
    let folder = match (r.folder_input, r.folder_path) {
        (Some(input), Some(path)) => JsonV::Object(
            pairs_insert(pairs_insert(seq![], "input"@, JsonV::Str(input@)), "path"@, JsonV::Str(path@)),
        ),
        _ => JsonV::Null,
    };
    let p3 = pairs_insert(p2, "folder"@, folder);
    let p4 = if r.library_id is Some {
        pairs_insert(p3, "library"@, JsonV::Object(library_json(r)))
    } else {
        p3
    };
    let prepare = pairs_insert(
        pairs_insert(
            pairs_insert(pairs_insert(seq![], "status"@, JsonV::Str(r.prepare_status@)), "action"@, JsonV::Str(r.prepare_action@)),
            "job_id"@,
            opt_str_json(r.job_id),
        ),
        "wait_mode"@,
        JsonV::Str(r.wait_mode@),
    );
    let p5 = pairs_insert(p4, "prepare"@, JsonV::Object(prepare));
    let p6 = pairs_insert(p5, "results"@, json_model(r.results));
    let p7 = match r.query_asset {
        Some(q) => pairs_insert(p6, "query_asset"@, json_model(q)),
        None => p6,
    };
    match r.search_debug {
        Some(d) => pairs_insert(p7, "debug"@, json_model(d)),
        None => p7,
    }
}

/// The JSON output of a find: status and data, and with `debug` the base URL's source,
/// the number of job polls, the last job and the requests made.
pub open spec fn find_output_json(base_url: Seq<char>, base_url_source: Seq<char>, r: FindResponse, debug: bool) -> JsonV {
    let p = pairs_insert(pairs_insert(seq![], "status"@, JsonV::Str("ok"@)), "data"@, JsonV::Object(find_data_json(base_url, r)));
    if debug {
        let d1 = pairs_insert(seq![], "base_url_source"@, JsonV::Str(base_url_source));
        let d2 = pairs_insert(d1, "job_poll_count"@, JsonV::Number(crate::text::decimal(r.job_poll_count as nat)));
        let d3 = pairs_insert(d2, "last_job"@, opt_json(r.last_job));
        let d4 = pairs_insert(d3, "requests"@, JsonV::Array(r.requests@.map_values(|t: RequestTrace| request_trace_json(t))));
        JsonV::Object(pairs_insert(p, "debug"@, JsonV::Object(d4)))
    } else {
        JsonV::Object(p)
    }
}

fn opt_string_json(o: &Option<String>) -> (r: Json)
    ensures
        json_model(r) == opt_str_json(*o),
{
    match o {
        Some(s) => Json::Str(s.clone()),
        None => Json::Null,
    }
}

fn library_members(r: &FindResponse, library_id: &String) -> (out: Vec<(String, Json)>)
    requires
        r.library_id == Some(*library_id),
    ensures
        crate::json::pairs_model(out@) == library_json(*r),
{
    let mut library = empty_members();
    put_member(&mut library, "library_id", Json::Str(library_id.clone()));
    match &r.source_root_id {
        Some(id) => put_member(&mut library, "source_root_id", Json::Str(id.clone())),
        None => {},
    }
    match r.reused_library {
        Some(b) => put_member(&mut library, "reused_library", Json::Bool(b)),
        None => {},
    }
    match r.reused_source_root {
        Some(b) => put_member(&mut library, "reused_source_root", Json::Bool(b)),
        None => {},
    }
    library
}

fn find_data_members(base_url: &str, r: &FindResponse) -> (out: Vec<(String, Json)>)
    ensures
        crate::json::pairs_model(out@) == find_data_json(base_url@, *r),
{
    let mut data = empty_members();
    put_member(&mut data, "base_url", json_string(base_url));
    put_member(&mut data, "scope", clone_json(&r.scope));
    let folder = match (&r.folder_input, &r.folder_path) {
        (Some(input), Some(path)) => {
            let mut f = empty_members();
            put_member(&mut f, "input", Json::Str(input.clone()));
            put_member(&mut f, "path", Json::Str(path.clone()));
            Json::Object(f)
        },
        _ => Json::Null,
    };
    put_member(&mut data, "folder", folder);
    match &r.library_id {
        Some(id) => put_member(&mut data, "library", Json::Object(library_members(r, id))),
        None => {},
    }
    let mut prepare = empty_members();
    put_member(&mut prepare, "status", Json::Str(r.prepare_status.clone()));
    put_member(&mut prepare, "action", Json::Str(r.prepare_action.clone()));
    put_member(&mut prepare, "job_id", opt_string_json(&r.job_id));
    put_member(&mut prepare, "wait_mode", Json::Str(r.wait_mode.clone()));
    put_member(&mut data, "prepare", Json::Object(prepare));
    put_member(&mut data, "results", clone_json(&r.results));
    match &r.query_asset {
        Some(q) => put_member(&mut data, "query_asset", clone_json(q)),
        None => {},
    }
    match &r.search_debug {
        Some(d) => put_member(&mut data, "debug", clone_json(d)),
        None => {},
    }
    data
}

/// The JSON output of a find (see `find_output_json`).
pub fn find_output_payload(base_url: &str, base_url_source: &str, response: &FindResponse, debug: bool) -> (r: Json)
    ensures
        json_model(r) == find_output_json(base_url@, base_url_source@, *response, debug),
{
    let mut payload = empty_members();
    put_member(&mut payload, "status", json_string("ok"));
    put_member(&mut payload, "data", Json::Object(find_data_members(base_url, response)));
    if debug {
        let mut d = empty_members();
        put_member(&mut d, "base_url_source", json_string(base_url_source));
        put_member(&mut d, "job_poll_count", json_u64(response.job_poll_count as u64));
        let last = match &response.last_job {
            Some(j) => clone_json(j),
            None => Json::Null,
        };
        put_member(&mut d, "last_job", last);
        let mut traces: Vec<Json> = Vec::new();
        let mut i: usize = 0;
        while i < response.requests.len()
            invariant
                i <= response.requests.len(),
                crate::json::items_model(traces@) == response.requests@.take(i as int).map_values(
                    |t: RequestTrace| request_trace_json(t),
                ),
            decreases response.requests.len() - i,
        {
            let ghost before = traces@;
            traces.push(response.requests[i].to_json());
            assert(crate::json::items_model(traces@) =~= crate::json::items_model(before).push(
                request_trace_json(response.requests@[i as int]),
            ));
            assert(response.requests@.take(i + 1) =~= response.requests@.take(i as int).push(response.requests@[i as int]));
            i = i + 1;
        }
        assert(response.requests@.take(response.requests.len() as int) =~= response.requests@);
        put_member(&mut d, "requests", Json::Array(traces));
        put_member(&mut payload, "debug", Json::Object(d));
    }
    Json::Object(payload)
}

/// A prepare job that is queued or running, or reports no status, is still pending: until
/// the timeout the wait polls again, in complete mode and, while no results are active, in
/// partial mode; it never fails as an unknown status.
pub proof fn lemma_pending_job_polls(
    c: PrepareContext,
    job: JsonV,
    results: Option<nat>,
    elapsed_ms: u64,
    timeout_ms: u64,
    complete: WaitDecision,
    partial: WaitDecision,
)
    requires
        job_status(job) == Some("queued"@) || job_status(job) == Some("running"@) || job_status(job) is None,
        elapsed_ms < timeout_ms,
        results is None || results == Some(0nat),
        prepare_wait_decision(c, job, elapsed_ms, timeout_ms, complete),
        partial_wait_decision(c, results, job, elapsed_ms, timeout_ms, partial),
    ensures
        complete is Poll,
        partial is Poll,
{
    reveal_strlit("queued");
    reveal_strlit("running");
    reveal_strlit("completed");
    reveal_strlit("failed");
    reveal_strlit("canceled");
    assert("queued"@ != "completed"@ && "running"@ != "completed"@) by {
        assert("queued"@.len() != "completed"@.len() && "running"@.len() != "completed"@.len());
    }
    assert("queued"@ != "failed"@ && "running"@ != "failed"@) by {
        assert("queued"@[0] != "failed"@[0] && "running"@.len() != "failed"@.len());
    }
    assert("queued"@ != "canceled"@ && "running"@ != "canceled"@) by {
        assert("queued"@.len() != "canceled"@.len() && "running"@.len() != "canceled"@.len());
    }
    assert(is_pending_status(job_status(job)));
}

} // verus!
