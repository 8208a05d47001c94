use vstd::prelude::*;
use crate::cli_error::CliError;
use crate::client::FetchedJson;
use crate::envelope::{
    append_u64, command_payload, command_payload_json, concat, data_object, field_text_or,
    join_strings, joined, text_or, views, CommandResponse, HttpMethod, RequestPlan,
};
use crate::find::invalid_envelope_is;
use crate::import::array_items;
use crate::json::{get_member_of, items_model, json_model, member, str_member, string_field, u64_field, u64_member, Json, JsonV};
use crate::text::{append_str, chars_of, decimal, string_of};

verus! {

/// The filters of `faus queries list`.
#[derive(Debug)]
pub struct ListQueriesArgs {
    pub limit: Option<usize>,
    pub cursor: Option<String>,
    pub query_kind: Option<String>,
    pub source: Option<String>,
    pub status: Option<String>,
}

/// A `faus queries` subcommand.
#[derive(Debug)]
pub enum QueriesCommand {
    /// List query history.
    List(ListQueriesArgs),
    /// Show one query history entry.
    Show { query_id: String },
    /// Delete one query history entry.
    Delete { query_id: String },
    /// Clear all query history.
    Clear,
}

/// `key=value` when the filter is given.
pub open spec fn filter_pair(key: Seq<char>, value: Option<String>) -> Seq<Seq<char>> {
    match value {
        Some(v) => seq![key + "="@ + v@],
        None => seq![],
    }
}

/// The query parameters of a list, in order; values are written as given.
pub open spec fn query_list_pairs(a: ListQueriesArgs) -> Seq<Seq<char>> {
    (match a.limit {
        Some(n) => seq!["limit="@ + decimal(n as nat)],
        None => seq![],
    }) + filter_pair("cursor"@, a.cursor) + filter_pair("query_kind"@, a.query_kind) + filter_pair(
        "source"@,
        a.source,
    ) + filter_pair("status"@, a.status)
}

/// The path of a list: `/queries/history`, with `?` and the pairs joined by `&` when
/// there are any.
pub open spec fn query_list_path_of(a: ListQueriesArgs) -> Seq<char> {
    let ps = query_list_pairs(a);
    if ps.len() == 0 { "/queries/history"@ } else { "/queries/history?"@ + joined(ps, "&"@) }
}

fn push_filter(pairs: &mut Vec<String>, key: &str, value: &Option<String>)
    ensures
        views(final(pairs)@) == views(old(pairs)@) + filter_pair(key@, *value),
{
    if let Some(v) = value {
        let mut m = chars_of(key);
        append_str(&mut m, "=");
        append_str(&mut m, v.as_str());
        let ghost before = pairs@;
        let s = string_of(&m);
        pairs.push(s);
        assert(views(pairs@) =~= views(before) + filter_pair(key@, *value));
    } else {
        assert(views(pairs@) =~= views(pairs@) + filter_pair(key@, *value));
    }
}

/// See `query_list_path_of`.
pub fn query_list_path(args: &ListQueriesArgs) -> (r: String)
    ensures
        r@ == query_list_path_of(*args),
{
    let mut pairs: Vec<String> = Vec::new();
    if let Some(limit) = args.limit {
        let mut m = chars_of("limit=");
        append_u64(&mut m, limit as u64);
        pairs.push(string_of(&m));
    }
    assert(views(pairs@) =~= match args.limit {
        Some(n) => seq!["limit="@ + decimal(n as nat)],
        None => Seq::<Seq<char>>::empty(),
    });
    push_filter(&mut pairs, "cursor", &args.cursor);
    push_filter(&mut pairs, "query_kind", &args.query_kind);
    push_filter(&mut pairs, "source", &args.source);
    push_filter(&mut pairs, "status", &args.status);
    assert(views(pairs@) =~= query_list_pairs(*args));
    if pairs.len() == 0 {
        "/queries/history".to_owned()
    } else {
        let joined_pairs = join_strings(&pairs, "&");
        concat("/queries/history?", joined_pairs.as_str())
    }
}

/// The request of a queries subcommand.
pub open spec fn queries_plan_is(c: QueriesCommand, p: RequestPlan) -> bool {
    &&& p.body is None
    &&& match c {
        QueriesCommand::List(a) => p.method == HttpMethod::Get && p.path@ == query_list_path_of(a),
        QueriesCommand::Show { query_id } => p.method == HttpMethod::Get && p.path@ == "/queries/history/"@
            + query_id@,
        QueriesCommand::Delete { query_id } => p.method == HttpMethod::Delete && p.path@ == "/queries/history/"@
            + query_id@,
        QueriesCommand::Clear => p.method == HttpMethod::Delete && p.path@ == "/queries/history"@,
    }
}

/// The request of a queries subcommand (see `queries_plan_is`).
pub fn queries_request(command: &QueriesCommand) -> (r: RequestPlan)
    ensures
        queries_plan_is(*command, r),
{
    match command {
        QueriesCommand::List(a) => RequestPlan { method: HttpMethod::Get, path: query_list_path(a), body: None },
        QueriesCommand::Show { query_id } => RequestPlan {
            method: HttpMethod::Get,
            path: concat("/queries/history/", query_id.as_str()),
            body: None,
        },
        QueriesCommand::Delete { query_id } => RequestPlan {
            method: HttpMethod::Delete,
            path: concat("/queries/history/", query_id.as_str()),
            body: None,
        },
        QueriesCommand::Clear => RequestPlan {
            method: HttpMethod::Delete,
            path: "/queries/history".to_owned(),
            body: None,
        },
    }
}

/// What a queries subcommand gives: a history page, an entry, or a deletion report.
#[derive(Debug)]
pub enum QueriesOutput {
    List { data: Json },
    Entry { data: Json },
    Deleted { data: Json },
}

/// The kind of output of a subcommand, holding `d`.
pub open spec fn queries_output_is(c: QueriesCommand, o: QueriesOutput, d: JsonV) -> bool {
    match c {
        QueriesCommand::List(_) => o matches QueriesOutput::List { data } && json_model(data) == d,
        QueriesCommand::Show { .. } => o matches QueriesOutput::Entry { data } && json_model(data) == d,
        _ => o matches QueriesOutput::Deleted { data } && json_model(data) == d,
    }
}

/// Checks the response to a queries subcommand: its `data` must be an object.
pub fn queries_response(command: &QueriesCommand, request_url: &str, fetched: &FetchedJson) -> (r: Result<
    CommandResponse<QueriesOutput>,
    CliError,
>)
    ensures
        match member(json_model(fetched.value), "data"@) {
            Some(d) => if d is Object {
                r matches Ok(resp) && resp.request_url@ == request_url@ && resp.http_status == fetched.status
                    && queries_output_is(*command, resp.output, d)
            } else {
                r matches Err(e) && invalid_envelope_is(e, request_url@, "data object"@)
            },
            None => r matches Err(e) && invalid_envelope_is(e, request_url@, "data object"@),
        },
{
    let data = data_object(&fetched.value, request_url, "data object")?;
    let output = match command {
        QueriesCommand::List(_) => QueriesOutput::List { data },
        QueriesCommand::Show { .. } => QueriesOutput::Entry { data },
        _ => QueriesOutput::Deleted { data },
    };
    Ok(CommandResponse { request_url: request_url.to_owned(), http_status: fetched.status, output })
}

/// The JSON output of a queries subcommand: the page under `history`, an entry under
/// `query`, a deletion under `delete`.
pub fn queries_output_payload(
    base_url: &str,
    base_url_source: &str,
    response: &CommandResponse<QueriesOutput>,
    debug: bool,
) -> (r: Json)
    ensures
        json_model(r) == match response.output {
            QueriesOutput::List { data } => command_payload_json(
                base_url@,
                "history"@,
                json_model(data),
                base_url_source@,
                response.request_url@,
                response.http_status,
                debug,
            ),
            QueriesOutput::Entry { data } => command_payload_json(
                base_url@,
                "query"@,
                json_model(data),
                base_url_source@,
                response.request_url@,
                response.http_status,
                debug,
            ),
            QueriesOutput::Deleted { data } => command_payload_json(
                base_url@,
                "delete"@,
                json_model(data),
                base_url_source@,
                response.request_url@,
                response.http_status,
                debug,
            ),
        },
{
    let (key, data) = match &response.output {
        QueriesOutput::List { data } => ("history", data),
        QueriesOutput::Entry { data } => ("query", data),
        QueriesOutput::Deleted { data } => ("delete", data),
    };
    command_payload(base_url, key, data, base_url_source, response.request_url.as_str(), response.http_status, debug)
}

/// The line of one history item: id, kind, status, scope and input, `-` where missing.
pub open spec fn history_item_text(item: JsonV) -> Seq<char> {
    text_or(item, "query_id"@, "-"@) + "\t"@ + text_or(item, "query_kind"@, "-"@) + "\t"@ + text_or(
        item,
        "status"@,
        "-"@,
    ) + "\t"@ + text_or(item, "scope_summary"@, "-"@) + "\t"@ + text_or(item, "input_summary"@, "-"@)
}

/// An unsigned member that fits in `usize`, or 0.
pub open spec fn usize_or_zero(v: JsonV, field: Seq<char>) -> nat {
    match u64_member(v, field) {
        Some(n) => if n <= usize::MAX { n as nat } else { 0 },
        None => 0,
    }
}

/// The lines that a queries subcommand prints for a person; an entry's full document
/// follows them.
pub open spec fn queries_human_lines(output: QueriesOutput) -> Seq<Seq<char>> {
    match output {
        QueriesOutput::List { data } => {
            let d = json_model(data);
            let items = array_items(d, "items"@);
            seq!["queries="@ + decimal(items.len())] + items.map_values(|i: JsonV| history_item_text(i)) + match str_member(
                d,
                "next_cursor"@,
            ) {
                Some(c) => seq!["next_cursor="@ + c],
                None => seq![],
            }
        },
        QueriesOutput::Entry { data } => {
            let d = json_model(data);
            seq![
                "query_id="@ + text_or(d, "query_id"@, "-"@),
                "kind="@ + text_or(d, "query_kind"@, "-"@),
                "status="@ + text_or(d, "status"@, "-"@),
                "summary="@ + text_or(d, "input_summary"@, "-"@),
            ]
        },
        QueriesOutput::Deleted { data } => {
            let d = json_model(data);
            seq![
                "deleted="@ + decimal(usize_or_zero(d, "deleted"@)),
                "query_assets_deleted="@ + decimal(usize_or_zero(d, "query_assets_deleted"@)),
            ]
        },
    }
}

fn usize_field_or_zero(v: &Json, field: &str) -> (r: u64)
    ensures
        r as nat == usize_or_zero(json_model(*v), field@),
{
    match u64_field(v, field) {
        Some(n) => if n as u128 <= usize::MAX as u128 { n } else { 0 },
        None => 0,
    }
}

fn history_item_line(item: &Json) -> (r: String)
    ensures
        r@ == history_item_text(json_model(*item)),
{
    let mut m: Vec<char> = Vec::new();
    append_str(&mut m, field_text_or(item, "query_id", "-").as_str());
    append_str(&mut m, "\t");
    append_str(&mut m, field_text_or(item, "query_kind", "-").as_str());
    append_str(&mut m, "\t");
    append_str(&mut m, field_text_or(item, "status", "-").as_str());
    append_str(&mut m, "\t");
    append_str(&mut m, field_text_or(item, "scope_summary", "-").as_str());
    append_str(&mut m, "\t");
    append_str(&mut m, field_text_or(item, "input_summary", "-").as_str());
    assert(m@ =~= history_item_text(json_model(*item)));
    string_of(&m)
}

fn number_line(prefix: &str, n: u64) -> (r: String)
    ensures
        r@ == prefix@ + decimal(n as nat),
{
    let mut m = chars_of(prefix);
    append_u64(&mut m, n);
    string_of(&m)
}

/// See `queries_human_lines`.
pub fn queries_human_output(response: &CommandResponse<QueriesOutput>) -> (r: Vec<String>)
    ensures
        views(r@) == queries_human_lines(response.output),
{
    let mut lines: Vec<String> = Vec::new();
    match &response.output {
        QueriesOutput::List { data } => {
            let empty: Vec<Json> = Vec::new();
            let items: &Vec<Json> = match get_member_of(data, "items") {
                Some(Json::Array(items)) => items,
                _ => &empty,
            };
            let ghost ms = items_model(items@);
            assert(ms == array_items(json_model(*data), "items"@));
            assert(ms.len() == items.len());
            lines.push(number_line("queries=", items.len() as u64));
            let ghost head = seq!["queries="@ + decimal(ms.len())];
            assert(views(lines@) =~= head);
            let mut i: usize = 0;
            while i < items.len()
                invariant
                    i <= items.len(),
                    ms == items_model(items@),
                    ms.len() == items.len(),
                    views(lines@) == head + ms.take(i as int).map_values(|x: JsonV| history_item_text(x)),
                decreases items.len() - i,
            {
                let ghost before = lines@;
                let line = history_item_line(&items[i]);
                lines.push(line);
                assert(json_model(items@[i as int]) == ms[i as int]);
                assert(ms.take(i + 1) =~= ms.take(i as int).push(ms[i as int]));
                assert(views(lines@) =~= views(before).push(line@));
                i += 1;
            }
            assert(ms.take(items.len() as int) =~= ms);
            let ghost mid = lines@;
            if let Some(c) = string_field(data, "next_cursor") {
                lines.push(concat("next_cursor=", c.as_str()));
            }
            assert(views(lines@) =~= queries_human_lines(response.output));
        },
        QueriesOutput::Entry { data } => {
            lines.push(concat("query_id=", field_text_or(data, "query_id", "-").as_str()));
            lines.push(concat("kind=", field_text_or(data, "query_kind", "-").as_str()));
            lines.push(concat("status=", field_text_or(data, "status", "-").as_str()));
            lines.push(concat("summary=", field_text_or(data, "input_summary", "-").as_str()));
            assert(views(lines@) =~= queries_human_lines(response.output));
        },
        QueriesOutput::Deleted { data } => {
            lines.push(number_line("deleted=", usize_field_or_zero(data, "deleted")));
            lines.push(number_line("query_assets_deleted=", usize_field_or_zero(data, "query_assets_deleted")));
            assert(views(lines@) =~= queries_human_lines(response.output));
        },
    }
    lines
}

} // verus!
