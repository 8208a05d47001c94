use vstd::prelude::*;
use crate::cli_error::{error_is, CliError};
use crate::client::{
    given_pairs, query_request_is, request_with_query, url_query_outcome, AppRequest, FetchedJson,
    ResolvedBaseUrl,
};
use crate::envelope::{
    accepted_rejected_data, append_bool, append_u64, array_len_or_zero, array_member_len,
    bool_field_or_false, bool_text, command_payload, command_payload_json, concat, count_or_zero,
    data_array_member, data_member, field_text_or, flag_or_false, member_or_null,
    member_or_null_of, number_field_or_zero, text_or, views, CommandResponse, HttpMethod,
};
use crate::find::{action_data, invalid_envelope_is, invalid_success_envelope, member_has_shape, MemberShape};
use crate::jobs::summary_lines;
use crate::json::{
    clone_json, empty_members, get_member_of, items_model, json_model, json_string, json_strings,
    member, pairs_insert, put_member, str_member, string_field, string_views, Json, JsonV, Pairs,
};
use crate::serve::{resolve_path, resolved_path};
use crate::text::{append_str, chars_of, decimal, string_of};

verus! {

/// The include and exclude rules given on the command line.
#[derive(Debug)]
pub struct SourceRootRuleArgs {
    pub include_globs: Vec<String>,
    pub exclude_globs: Vec<String>,
    pub include_extensions: Vec<String>,
}

/// Strings as a JSON array.
pub open spec fn strings_json(v: Seq<String>) -> JsonV {
    JsonV::Array(string_views(v).map_values(|s: Seq<char>| JsonV::Str(s)))
}

/// The JSON form of the rules: all three lists.
pub open spec fn rules_json(r: SourceRootRuleArgs) -> JsonV {
    JsonV::Object(
        pairs_insert(
            pairs_insert(
                pairs_insert(seq![], "include_globs"@, strings_json(r.include_globs@)),
                "exclude_globs"@,
                strings_json(r.exclude_globs@),
            ),
            "include_extensions"@,
            strings_json(r.include_extensions@),
        ),
    )
}

impl SourceRootRuleArgs {
    /// Whether any rule was given.
    pub fn has_any(&self) -> (r: bool)
        ensures
            r == (self.include_globs.len() > 0 || self.exclude_globs.len() > 0 || self.include_extensions.len() > 0),
    {
        self.include_globs.len() > 0 || self.exclude_globs.len() > 0 || self.include_extensions.len() > 0
    }

    /// See `rules_json`.
    pub fn to_json(&self) -> (r: Json)
        ensures
            json_model(r) == rules_json(*self),
    {
        let mut o = empty_members();
        put_member(&mut o, "include_globs", json_strings(&self.include_globs));
        put_member(&mut o, "exclude_globs", json_strings(&self.exclude_globs));
        put_member(&mut o, "include_extensions", json_strings(&self.include_extensions));
        Json::Object(o)
    }
}

/// `r` is `path` made absolute: an absolute path as it is, a relative one joined to the
/// working directory, whose lookup may have failed.
pub open spec fn absolute_path_is(path: Seq<char>, cwd: Result<String, String>, r: Result<String, CliError>) -> bool {
    if path.len() > 0 && path[0] == '/' {
        r matches Ok(s) && s@ == path
    } else {
        match cwd {
            Ok(c) => r matches Ok(s) && s@ == resolved_path(c@, path),
            Err(e) => r matches Err(x) && error_is(
                x,
                "current_dir_failed"@,
                "Could not resolve current working directory: "@ + e@,
                None,
                None,
                None,
            ),
        }
    }
}

/// See `absolute_path_is`.
pub fn absolute_path(path: &str, cwd: &Result<String, String>) -> (r: Result<String, CliError>)
    ensures
        absolute_path_is(path@, *cwd, r),
{
    let p = chars_of(path);
    if p.len() > 0 && p[0] == '/' {
        return Ok(path.to_owned());
    }
    match cwd {
        Ok(c) => Ok(resolve_path(c.as_str(), path)),
        Err(e) => Err(CliError::new(
            "current_dir_failed",
            concat("Could not resolve current working directory: ", e.as_str()).as_str(),
        )),
    }
}

/// The members of a source-root body after the path: `enabled` when set, then the rules
/// when any is given.
pub open spec fn root_body_rest(p: Pairs, enabled: Option<bool>, rules: SourceRootRuleArgs) -> JsonV {
    let p2 = match enabled {
        Some(b) => pairs_insert(p, "enabled"@, JsonV::Bool(b)),
        None => p,
    };
    JsonV::Object(
        if rules.include_globs.len() > 0 || rules.exclude_globs.len() > 0 || rules.include_extensions.len() > 0 {
            pairs_insert(p2, "rules"@, rules_json(rules))
        } else {
            p2
        },
    )
}

fn finish_root_body(body: &mut Vec<(String, Json)>, enabled: Option<bool>, rules: &SourceRootRuleArgs)
    ensures
        JsonV::Object(crate::json::pairs_model(final(body)@)) == root_body_rest(
            crate::json::pairs_model(old(body)@),
            enabled,
            *rules,
        ),
{
    if let Some(b) = enabled {
        put_member(body, "enabled", Json::Bool(b));
    }
    if rules.has_any() {
        put_member(body, "rules", rules.to_json());
    }
}

/// The body that creates a source root: its absolute path, `enabled: false` when disabled,
/// and the rules when any is given.
pub fn create_source_root_body(root_path: &str, disabled: bool, rules: &SourceRootRuleArgs, cwd: &Result<
    String,
    String,
>) -> (r: Result<Json, CliError>)
    ensures
        match r {
            Ok(b) => exists|p: String|
                #![trigger absolute_path_is(root_path@, *cwd, Ok::<String, CliError>(p))]
                absolute_path_is(root_path@, *cwd, Ok::<String, CliError>(p)) && json_model(b) == root_body_rest(
                    pairs_insert(seq![], "root_path"@, JsonV::Str(p@)),
                    if disabled { Some(false) } else { None },
                    *rules,
                ),
            Err(e) => absolute_path_is(root_path@, *cwd, Err(e)),
        },
{
    let path = absolute_path(root_path, cwd)?;
    let ghost p = path;
    let mut body = empty_members();
    put_member(&mut body, "root_path", Json::Str(path));
    finish_root_body(&mut body, if disabled { Some(false) } else { None }, rules);
    assert(absolute_path_is(root_path@, *cwd, Ok::<String, CliError>(p)));
    Ok(Json::Object(body))
}

/// The body that updates a source root: the new absolute path when given, `enabled` from
/// `--enable` or `--disable` (the latter winning), and the rules when any is given.
pub fn update_source_root_body(
    root_path: Option<&str>,
    enable: bool,
    disable: bool,
    rules: &SourceRootRuleArgs,
    cwd: &Result<String, String>,
) -> (r: Result<Json, CliError>)
    ensures
        ({
            let enabled = if disable { Some(false) } else if enable { Some(true) } else { None };
            match root_path {
                None => r matches Ok(b) && json_model(b) == root_body_rest(seq![], enabled, *rules),
                Some(rp) => match r {
                    Ok(b) => exists|p: String|
                        #![trigger absolute_path_is(rp@, *cwd, Ok::<String, CliError>(p))]
                        absolute_path_is(rp@, *cwd, Ok::<String, CliError>(p)) && json_model(b) == root_body_rest(
                            pairs_insert(seq![], "root_path"@, JsonV::Str(p@)),
                            enabled,
                            *rules,
                        ),
                    Err(e) => absolute_path_is(rp@, *cwd, Err(e)),
                },
            }
        }),
{
    let mut body = empty_members();
    let enabled = if disable { Some(false) } else if enable { Some(true) } else { None };
    match root_path {
        Some(rp) => {
            let path = absolute_path(rp, cwd)?;
            let ghost p = path;
            put_member(&mut body, "root_path", Json::Str(path));
            finish_root_body(&mut body, enabled, rules);
            assert(absolute_path_is(rp@, *cwd, Ok::<String, CliError>(p)));
        },
        None => {
            assert(crate::json::pairs_model(body@) =~= Seq::<(Seq<char>, JsonV)>::empty());
            finish_root_body(&mut body, enabled, rules);
        },
    }
    Ok(Json::Object(body))
}

/// A `faus sources roots` subcommand.
#[derive(Debug)]
pub enum RootsCommand {
    List { library_id: String },
    Create { library_id: String, root_path: String, disabled: bool, rules: SourceRootRuleArgs },
    Show { library_id: String, source_root_id: String },
    Update {
        library_id: String,
        source_root_id: String,
        root_path: Option<String>,
        enable: bool,
        disable: bool,
        rules: SourceRootRuleArgs,
    },
    Delete { library_id: String, source_root_id: String },
}

/// A `faus sources` subcommand.
#[derive(Debug)]
pub enum SourcesCommand {
    /// Manage source roots.
    Roots(RootsCommand),
    /// List the source inventory, with optional filters.
    List { library_id: String, source_root_id: Option<String>, source_type: Option<String>, status: Option<String> },
    /// Queue a library or source-root refresh.
    Refresh { library_id: String, source_root_id: Option<String> },
    /// Queue a library or source-root rescan.
    Rescan { library_id: String, source_root_id: Option<String> },
}

/// The source roots of a library.
pub open spec fn roots_path(library_id: Seq<char>) -> Seq<char> {
    "/libraries/"@ + library_id + "/source-roots"@
}

/// One source root of a library.
pub open spec fn root_path_of(library_id: Seq<char>, source_root_id: Seq<char>) -> Seq<char> {
    roots_path(library_id) + "/"@ + source_root_id
}

/// The endpoint of a refresh or rescan: of one source root, or of the whole library.
pub open spec fn action_path(library_id: Seq<char>, source_root_id: Option<String>, action: Seq<char>) -> Seq<char> {
    match source_root_id {
        Some(id) => root_path_of(library_id, id@) + "/"@ + action,
        None => "/libraries/"@ + library_id + "/"@ + action,
    }
}

fn roots_path_exec(library_id: &str) -> (r: String)
    ensures
        r@ == roots_path(library_id@),
{
    let mut m = chars_of("/libraries/");
    append_str(&mut m, library_id);
    append_str(&mut m, "/source-roots");
    string_of(&m)
}

fn root_path_exec(library_id: &str, source_root_id: &str) -> (r: String)
    ensures
        r@ == root_path_of(library_id@, source_root_id@),
{
    let mut m = chars_of(roots_path_exec(library_id).as_str());
    append_str(&mut m, "/");
    append_str(&mut m, source_root_id);
    string_of(&m)
}

/// See `action_path`.
pub fn source_action_path(library_id: &str, source_root_id: &Option<String>, action: &str) -> (r: String)
    ensures
        r@ == action_path(library_id@, *source_root_id, action@),
{
    match source_root_id {
        Some(id) => {
            let mut m = chars_of(root_path_exec(library_id, id.as_str()).as_str());
            append_str(&mut m, "/");
            append_str(&mut m, action);
            string_of(&m)
        },
        None => {
            let mut m = chars_of("/libraries/");
            append_str(&mut m, library_id);
            append_str(&mut m, "/");
            append_str(&mut m, action);
            string_of(&m)
        },
    }
}

/// A request of a sources subcommand, with its full URL.
#[derive(Debug)]
pub struct SourcesRequest {
    pub method: HttpMethod,
    pub url: String,
    pub body: Option<Json>,
}

/// The filters of a source listing, by name.
pub open spec fn list_filters(source_root_id: Option<String>, source_type: Option<String>, status: Option<String>) -> Seq<
    (Seq<char>, Option<String>),
> {
    seq![("source_root_id"@, source_root_id), ("source_type"@, source_type), ("status"@, status)]
}

/// `r` is the request of the subcommand `c` against `base`, from the working directory
/// `cwd`.
pub open spec fn sources_request_is(c: SourcesCommand, base: Seq<char>, cwd: Result<String, String>, r: Result<
    SourcesRequest,
    CliError,
>) -> bool {
    match c {
        SourcesCommand::Roots(RootsCommand::List { library_id }) => r matches Ok(q) && q.method == HttpMethod::Get
            && q.url@ == base + roots_path(library_id@) && q.body is None,
        SourcesCommand::Roots(RootsCommand::Create { library_id, root_path, disabled, rules }) => match r {
            Ok(q) => q.method == HttpMethod::Post && q.url@ == base + roots_path(library_id@) && (q.body matches Some(
                b,
            ) && exists|p: String|
                #![trigger absolute_path_is(root_path@, cwd, Ok::<String, CliError>(p))]
                absolute_path_is(root_path@, cwd, Ok::<String, CliError>(p)) && json_model(b) == root_body_rest(
                    pairs_insert(seq![], "root_path"@, JsonV::Str(p@)),
                    if disabled { Some(false) } else { None },
                    rules,
                )),
            Err(e) => absolute_path_is(root_path@, cwd, Err(e)),
        },
        SourcesCommand::Roots(RootsCommand::Show { library_id, source_root_id }) => r matches Ok(q) && q.method
            == HttpMethod::Get && q.url@ == base + root_path_of(library_id@, source_root_id@) && q.body is None,
        SourcesCommand::Roots(RootsCommand::Update { library_id, source_root_id, root_path, enable, disable, rules }) => {
            let enabled = if disable { Some(false) } else if enable { Some(true) } else { None };
            match r {
                Ok(q) => q.method == HttpMethod::Patch && q.url@ == base + root_path_of(library_id@, source_root_id@)
                    && (q.body matches Some(b) && match root_path {
                    None => json_model(b) == root_body_rest(seq![], enabled, rules),
                    Some(rp) => exists|p: String|
                        #![trigger absolute_path_is(rp@, cwd, Ok::<String, CliError>(p))]
                        absolute_path_is(rp@, cwd, Ok::<String, CliError>(p)) && json_model(b) == root_body_rest(
                            pairs_insert(seq![], "root_path"@, JsonV::Str(p@)),
                            enabled,
                            rules,
                        ),
                }),
                Err(e) => root_path matches Some(rp) && absolute_path_is(rp@, cwd, Err(e)),
            }
        },
        SourcesCommand::Roots(RootsCommand::Delete { library_id, source_root_id }) => r matches Ok(q) && q.method
            == HttpMethod::Delete && q.url@ == base + root_path_of(library_id@, source_root_id@) && q.body is None,
        SourcesCommand::List { library_id, source_root_id, source_type, status } => {
            let u = base + "/libraries/"@ + library_id@ + "/sources"@;
            match url_query_outcome(u, given_pairs(list_filters(source_root_id, source_type, status))) {
                Ok(full) => r matches Ok(q) && q.method == HttpMethod::Get && q.url@ == full && q.body is None,
                Err(e) => r matches Err(x) && error_is(
                    x,
                    "invalid_base_url"@,
                    "Could not build request URL `"@ + u + "`: "@ + e,
                    None,
                    None,
                    None,
                ),
            }
        },
        SourcesCommand::Refresh { library_id, source_root_id } => r matches Ok(q) && q.method == HttpMethod::Post
            && q.url@ == base + action_path(library_id@, source_root_id, "refresh"@) && q.body is None,
        SourcesCommand::Rescan { library_id, source_root_id } => r matches Ok(q) && q.method == HttpMethod::Post
            && q.url@ == base + action_path(library_id@, source_root_id, "rescan"@) && q.body is None,
    }
}

/// The request of a sources subcommand (see `sources_request_is`).
pub fn sources_request(command: &SourcesCommand, base: &ResolvedBaseUrl, cwd: &Result<String, String>) -> (r: Result<
    SourcesRequest,
    CliError,
>)
    ensures
        sources_request_is(*command, base.base_url@, *cwd, r),
{
    match command {
        SourcesCommand::Roots(RootsCommand::List { library_id }) => {
            let req = base.request(roots_path_exec(library_id.as_str()).as_str());
            Ok(SourcesRequest { method: HttpMethod::Get, url: req.url, body: None })
        },
        SourcesCommand::Roots(RootsCommand::Create { library_id, root_path, disabled, rules }) => {
            let req = base.request(roots_path_exec(library_id.as_str()).as_str());
            let body = create_source_root_body(root_path.as_str(), *disabled, rules, cwd)?;
            Ok(SourcesRequest { method: HttpMethod::Post, url: req.url, body: Some(body) })
        },
        SourcesCommand::Roots(RootsCommand::Show { library_id, source_root_id }) => {
            let req = base.request(root_path_exec(library_id.as_str(), source_root_id.as_str()).as_str());
            Ok(SourcesRequest { method: HttpMethod::Get, url: req.url, body: None })
        },
        SourcesCommand::Roots(RootsCommand::Update { library_id, source_root_id, root_path, enable, disable, rules }) => {
            let req = base.request(root_path_exec(library_id.as_str(), source_root_id.as_str()).as_str());
            let rp = match root_path {
                Some(p) => Some(p.as_str()),
                None => None,
            };
            let body = update_source_root_body(rp, *enable, *disable, rules, cwd)?;
            Ok(SourcesRequest { method: HttpMethod::Patch, url: req.url, body: Some(body) })
        },
        SourcesCommand::Roots(RootsCommand::Delete { library_id, source_root_id }) => {
            let req = base.request(root_path_exec(library_id.as_str(), source_root_id.as_str()).as_str());
            Ok(SourcesRequest { method: HttpMethod::Delete, url: req.url, body: None })
        },
        SourcesCommand::List { library_id, source_root_id, source_type, status } => {
            let mut p = chars_of("/libraries/");
            append_str(&mut p, library_id.as_str());
            append_str(&mut p, "/sources");
            let path = string_of(&p);
            let mut filters: Vec<(&str, Option<String>)> = Vec::new();
            filters.push(("source_root_id", source_root_id.clone()));
            filters.push(("source_type", source_type.clone()));
            filters.push(("status", status.clone()));
            assert(filters@.map_values(|f: (&str, Option<String>)| (f.0@, f.1)) =~= list_filters(
                *source_root_id,
                *source_type,
                *status,
            ));
            assert(base.base_url@ + path@ =~= base.base_url@ + "/libraries/"@ + library_id@ + "/sources"@);
            match request_with_query(base, path.as_str(), &filters) {
                Ok(req) => Ok(SourcesRequest { method: HttpMethod::Get, url: req.url, body: None }),
                Err(e) => Err(e),
            }
        },
        SourcesCommand::Refresh { library_id, source_root_id } => {
            let req = base.request(source_action_path(library_id.as_str(), source_root_id, "refresh").as_str());
            Ok(SourcesRequest { method: HttpMethod::Post, url: req.url, body: None })
        },
        SourcesCommand::Rescan { library_id, source_root_id } => {
            let req = base.request(source_action_path(library_id.as_str(), source_root_id, "rescan").as_str());
            Ok(SourcesRequest { method: HttpMethod::Post, url: req.url, body: None })
        },
    }
}

/// What a sources subcommand gives.
#[derive(Debug)]
pub enum SourcesOutput {
    SourceRoots { source_roots: Json },
    SourceRoot { source_root: Json },
    Sources { sources: Json },
    Action { action: Json },
}

/// The source root of a response: `data.source_root`, or `data` itself without one; it must
/// be an object with a string `source_root_id`.
pub open spec fn source_root_of(value: JsonV) -> Result<JsonV, Seq<char>> {
    match member(value, "data"@) {
        None => Err("data object"@),
        Some(d) => {
            let root = match member(d, "source_root"@) {
                Some(x) => x,
                None => d,
            };
            if root is Object && (member(root, "source_root_id"@) matches Some(JsonV::Str(_))) {
                Ok(root)
            } else {
                Err("data source root object"@)
            }
        },
    }
}

/// Checks a source-root response (see `source_root_of`).
pub fn source_root_from_envelope(value: &Json, url: &str) -> (r: Result<Json, CliError>)
    ensures
        match source_root_of(json_model(*value)) {
            Ok(root) => r matches Ok(x) && json_model(x) == root,
            Err(expected) => r matches Err(e) && invalid_envelope_is(e, url@, expected),
        },
{
    let d = match get_member_of(value, "data") {
        None => return Err(invalid_success_envelope(url, "data object")),
        Some(d) => d,
    };
    let root = match get_member_of(d, "source_root") {
        Some(x) => x,
        None => d,
    };
    let ok = match root {
        Json::Object(_) => match get_member_of(root, "source_root_id") {
            Some(Json::Str(_)) => true,
            _ => false,
        },
        _ => false,
    };
    if ok {
        Ok(clone_json(root))
    } else {
        Err(invalid_success_envelope(url, "data source root object"))
    }
}

/// The expectation named when an action response has no `data`.
pub open spec fn action_missing() -> Seq<char> {
    "data object with accepted and rejected arrays"@
}

/// `r` is the outcome of the response `value` from `url` to `c`.
pub open spec fn sources_response_is(c: SourcesCommand, url: Seq<char>, status: u16, value: JsonV, r: Result<
    CommandResponse<SourcesOutput>,
    CliError,
>) -> bool {
    match c {
        SourcesCommand::Roots(RootsCommand::List { .. }) => match data_member(value, "source_roots"@) {
            Some(JsonV::Array(items)) => r matches Ok(resp) && resp.request_url@ == url && resp.http_status == status
                && (resp.output matches SourcesOutput::SourceRoots { source_roots } && json_model(source_roots)
                == JsonV::Array(items)),
            _ => r matches Err(e) && invalid_envelope_is(e, url, "data.source_roots array"@),
        },
        SourcesCommand::Roots(_) => match source_root_of(value) {
            Ok(root) => r matches Ok(resp) && resp.request_url@ == url && resp.http_status == status
                && (resp.output matches SourcesOutput::SourceRoot { source_root } && json_model(source_root) == root),
            Err(expected) => r matches Err(e) && invalid_envelope_is(e, url, expected),
        },
        SourcesCommand::List { .. } => match data_member(value, "sources"@) {
            Some(JsonV::Array(items)) => r matches Ok(resp) && resp.request_url@ == url && resp.http_status == status
                && (resp.output matches SourcesOutput::Sources { sources } && json_model(sources) == JsonV::Array(items)),
            _ => r matches Err(e) && invalid_envelope_is(e, url, "data.sources array"@),
        },
        _ => match action_data(value) {
            Ok(d) => r matches Ok(resp) && resp.request_url@ == url && resp.http_status == status
                && (resp.output matches SourcesOutput::Action { action } && json_model(action) == d),
            Err(false) => r matches Err(e) && invalid_envelope_is(e, url, action_missing()),
            Err(true) => r matches Err(e) && invalid_envelope_is(e, url, "data.accepted and data.rejected arrays"@),
        },
    }
}

/// Checks the response to a sources subcommand (see `sources_response_is`).
pub fn sources_response(command: &SourcesCommand, request_url: &str, fetched: &FetchedJson) -> (r: Result<
    CommandResponse<SourcesOutput>,
    CliError,
>)
    ensures
        sources_response_is(*command, request_url@, fetched.status, json_model(fetched.value), r),
{
    let output = match command {
        SourcesCommand::Roots(RootsCommand::List { .. }) => SourcesOutput::SourceRoots {
            source_roots: data_array_member(&fetched.value, request_url, "source_roots", "data.source_roots array")?,
        },
        SourcesCommand::Roots(_) => SourcesOutput::SourceRoot {
            source_root: source_root_from_envelope(&fetched.value, request_url)?,
        },
        SourcesCommand::List { .. } => SourcesOutput::Sources {
            sources: data_array_member(&fetched.value, request_url, "sources", "data.sources array")?,
        },
        _ => SourcesOutput::Action {
            action: accepted_rejected_data(
                &fetched.value,
                request_url,
                "data object with accepted and rejected arrays",
                "data.accepted and data.rejected arrays",
            )?,
        },
    };
    Ok(CommandResponse { request_url: request_url.to_owned(), http_status: fetched.status, output })
}

/// The key under which a sources output is reported, with its document.
pub open spec fn sources_output_entry(o: SourcesOutput) -> (Seq<char>, JsonV) {
    match o {
        SourcesOutput::SourceRoots { source_roots } => ("source_roots"@, json_model(source_roots)),
        SourcesOutput::SourceRoot { source_root } => ("source_root"@, json_model(source_root)),
        SourcesOutput::Sources { sources } => ("sources"@, json_model(sources)),
        SourcesOutput::Action { action } => ("action"@, json_model(action)),
    }
}

/// The JSON output of a sources subcommand (see `sources_output_entry`).
pub fn sources_output_payload(
    base_url: &str,
    base_url_source: &str,
    response: &CommandResponse<SourcesOutput>,
    debug: bool,
) -> (r: Json)
    ensures
        json_model(r) == command_payload_json(
            base_url@,
            sources_output_entry(response.output).0,
            sources_output_entry(response.output).1,
            base_url_source@,
            response.request_url@,
            response.http_status,
            debug,
        ),
{
    let (key, doc) = match &response.output {
        SourcesOutput::SourceRoots { source_roots } => ("source_roots", source_roots),
        SourcesOutput::SourceRoot { source_root } => ("source_root", source_root),
        SourcesOutput::Sources { sources } => ("sources", sources),
        SourcesOutput::Action { action } => ("action", action),
    };
    command_payload(base_url, key, doc, base_url_source, response.request_url.as_str(), response.http_status, debug)
}

/// The line that describes a source root, with its coverage counts.
pub open spec fn source_root_text(root: JsonV) -> Seq<char> {
    let c = member_or_null(root, "coverage_summary"@);
    text_or(root, "source_root_id"@, "unknown"@) + "\tenabled="@ + bool_text(flag_or_false(root, "enabled"@))
        + "\tstatus="@ + text_or(root, "status"@, "unknown"@) + "\twatch="@ + text_or(root, "watch_state"@, "unknown"@)
        + "\tobserved="@ + decimal(count_or_zero(c, "observed_file_count"@) as nat) + "\tmatched="@ + decimal(
        count_or_zero(c, "matched_file_count"@) as nat,
    ) + "\tactive="@ + decimal(count_or_zero(c, "active_source_count"@) as nat) + "\tinactive="@ + decimal(
        count_or_zero(c, "inactive_source_count"@) as nat,
    ) + "\t"@ + text_or(root, "root_path"@, "unknown"@)
}

/// See `source_root_text`.
pub fn source_root_summary(root: &Json) -> (r: String)
    ensures
        r@ == source_root_text(json_model(*root)),
{
    let c = member_or_null_of(root, "coverage_summary");
    let mut m: Vec<char> = Vec::new();
    append_str(&mut m, field_text_or(root, "source_root_id", "unknown").as_str());
    append_str(&mut m, "\tenabled=");
    append_bool(&mut m, bool_field_or_false(root, "enabled"));
    append_str(&mut m, "\tstatus=");
    append_str(&mut m, field_text_or(root, "status", "unknown").as_str());
    append_str(&mut m, "\twatch=");
    append_str(&mut m, field_text_or(root, "watch_state", "unknown").as_str());
    append_str(&mut m, "\tobserved=");
    append_u64(&mut m, number_field_or_zero(&c, "observed_file_count"));
    append_str(&mut m, "\tmatched=");
    append_u64(&mut m, number_field_or_zero(&c, "matched_file_count"));
    append_str(&mut m, "\tactive=");
    append_u64(&mut m, number_field_or_zero(&c, "active_source_count"));
    append_str(&mut m, "\tinactive=");
    append_u64(&mut m, number_field_or_zero(&c, "inactive_source_count"));
    append_str(&mut m, "\t");
    append_str(&mut m, field_text_or(root, "root_path", "unknown").as_str());
    assert(m@ =~= source_root_text(json_model(*root)));
    string_of(&m)
}

/// The line that describes a source.
pub open spec fn source_text(source: JsonV) -> Seq<char> {
    text_or(source, "source_id"@, "unknown"@) + "\t"@ + text_or(source, "source_type"@, "unknown"@) + "\t"@
        + text_or(source, "kind"@, "unknown"@) + "\tstatus="@ + text_or(source, "status"@, "unknown"@) + "\troot="@
        + text_or(source, "source_root_id"@, "none"@) + "\tassets="@ + decimal(count_or_zero(source, "asset_count"@) as nat)
        + "\t"@ + text_or(source, "source_uri"@, "unknown"@)
}

/// See `source_text`.
pub fn source_summary(source: &Json) -> (r: String)
    ensures
        r@ == source_text(json_model(*source)),
{
    let mut m: Vec<char> = Vec::new();
    append_str(&mut m, field_text_or(source, "source_id", "unknown").as_str());
    append_str(&mut m, "\t");
    append_str(&mut m, field_text_or(source, "source_type", "unknown").as_str());
    append_str(&mut m, "\t");
    append_str(&mut m, field_text_or(source, "kind", "unknown").as_str());
    append_str(&mut m, "\tstatus=");
    append_str(&mut m, field_text_or(source, "status", "unknown").as_str());
    append_str(&mut m, "\troot=");
    append_str(&mut m, field_text_or(source, "source_root_id", "none").as_str());
    append_str(&mut m, "\tassets=");
    append_u64(&mut m, number_field_or_zero(source, "asset_count"));
    append_str(&mut m, "\t");
    append_str(&mut m, field_text_or(source, "source_uri", "unknown").as_str());
    assert(m@ =~= source_text(json_model(*source)));
    string_of(&m)
}

/// The job an action names: its handle, else its job's id, else `none`.
pub open spec fn action_job_text(action: JsonV) -> Seq<char> {
    match str_member(action, "job_handle"@) {
        Some(h) => h,
        None => text_or(member_or_null(action, "job"@), "job_id"@, "none"@),
    }
}

/// The line that describes a refresh or rescan.
pub open spec fn action_text(action: JsonV) -> Seq<char> {
    let job = member_or_null(action, "job"@);
    "accepted="@ + decimal(array_len_or_zero(action, "accepted"@)) + "\trejected="@ + decimal(
        array_len_or_zero(action, "rejected"@),
    ) + "\tjob="@ + action_job_text(action) + "\tstatus="@ + text_or(job, "status"@, "unknown"@) + "\tphase="@
        + text_or(job, "phase"@, "unknown"@)
}

/// See `action_text`.
pub fn action_summary(action: &Json) -> (r: String)
    ensures
        r@ == action_text(json_model(*action)),
{
    let job = member_or_null_of(action, "job");
    let mut m = chars_of("accepted=");
    append_u64(&mut m, array_member_len(action, "accepted") as u64);
    append_str(&mut m, "\trejected=");
    append_u64(&mut m, array_member_len(action, "rejected") as u64);
    append_str(&mut m, "\tjob=");
    let handle = match string_field(action, "job_handle") {
        Some(h) => h,
        None => field_text_or(&job, "job_id", "none"),
    };
    append_str(&mut m, handle.as_str());
    append_str(&mut m, "\tstatus=");
    append_str(&mut m, field_text_or(&job, "status", "unknown").as_str());
    append_str(&mut m, "\tphase=");
    append_str(&mut m, field_text_or(&job, "phase", "unknown").as_str());
    assert(m@ =~= action_text(json_model(*action)));
    string_of(&m)
}

/// The lines that a sources subcommand prints for a person.
pub open spec fn sources_human_lines(output: SourcesOutput) -> Seq<Seq<char>> {
    match output {
        SourcesOutput::SourceRoots { source_roots } => match json_model(source_roots) {
            JsonV::Array(items) => summary_lines(items, "No source roots."@, |x: JsonV| source_root_text(x)),
            _ => seq![],
        },
        SourcesOutput::SourceRoot { source_root } => seq![source_root_text(json_model(source_root))],
        SourcesOutput::Sources { sources } => match json_model(sources) {
            JsonV::Array(items) => summary_lines(items, "No sources."@, |x: JsonV| source_text(x)),
            _ => seq![],
        },
        SourcesOutput::Action { action } => seq![action_text(json_model(action))],
    }
}

fn root_lines(items: &Vec<Json>) -> (r: Vec<String>)
    ensures
        views(r@) == summary_lines(items_model(items@), "No source roots."@, |x: JsonV| source_root_text(x)),
{
    let mut lines: Vec<String> = Vec::new();
    let ghost ms = items_model(items@);
    assert(ms.len() == items.len());
    if items.len() == 0 {
        lines.push("No source roots.".to_owned());
        assert(views(lines@) =~= seq!["No source roots."@]);
        return lines;
    }
    let mut i: usize = 0;
    while i < items.len()
        invariant
            i <= items.len(),
            ms == items_model(items@),
            ms.len() == items.len(),
            views(lines@) == ms.take(i as int).map_values(|x: JsonV| source_root_text(x)),
        decreases items.len() - i,
    {
        let ghost before = lines@;
        let line = source_root_summary(&items[i]);
        lines.push(line);
        assert(json_model(items@[i as int]) == ms[i as int]);
        assert(ms.take(i + 1) =~= ms.take(i as int).push(ms[i as int]));
        assert(views(lines@) =~= views(before).push(line@));
        i += 1;
    }
    assert(ms.take(items.len() as int) =~= ms);
    lines
}

fn source_lines(items: &Vec<Json>) -> (r: Vec<String>)
    ensures
        views(r@) == summary_lines(items_model(items@), "No sources."@, |x: JsonV| source_text(x)),
{
    let mut lines: Vec<String> = Vec::new();
    let ghost ms = items_model(items@);
    assert(ms.len() == items.len());
    if items.len() == 0 {
        lines.push("No sources.".to_owned());
        assert(views(lines@) =~= seq!["No sources."@]);
        return lines;
    }
    let mut i: usize = 0;
    while i < items.len()
        invariant
            i <= items.len(),
            ms == items_model(items@),
            ms.len() == items.len(),
            views(lines@) == ms.take(i as int).map_values(|x: JsonV| source_text(x)),
        decreases items.len() - i,
    {
        let ghost before = lines@;
        let line = source_summary(&items[i]);
        lines.push(line);
        assert(json_model(items@[i as int]) == ms[i as int]);
        assert(ms.take(i + 1) =~= ms.take(i as int).push(ms[i as int]));
        assert(views(lines@) =~= views(before).push(line@));
        i += 1;
    }
    assert(ms.take(items.len() as int) =~= ms);
    lines
}

/// See `sources_human_lines`. Lists that were checked hold arrays.
pub fn sources_human_output(response: &CommandResponse<SourcesOutput>) -> (r: Vec<String>)
    requires
        response.output matches SourcesOutput::SourceRoots { source_roots } ==> json_model(source_roots) is Array,
        response.output matches SourcesOutput::Sources { sources } ==> json_model(sources) is Array,
    ensures
        views(r@) == sources_human_lines(response.output),
{
    match &response.output {
        SourcesOutput::SourceRoots { source_roots } => match source_roots {
            Json::Array(items) => root_lines(items),
            _ => Vec::new(),
        },
        SourcesOutput::SourceRoot { source_root } => {
            let mut lines: Vec<String> = Vec::new();
            lines.push(source_root_summary(source_root));
            assert(views(lines@) =~= sources_human_lines(response.output));
            lines
        },
        SourcesOutput::Sources { sources } => match sources {
            Json::Array(items) => source_lines(items),
            _ => Vec::new(),
        },
        SourcesOutput::Action { action } => {
            let mut lines: Vec<String> = Vec::new();
            lines.push(action_summary(action));
            assert(views(lines@) =~= sources_human_lines(response.output));
            lines
        },
    }
}

} // verus!
