use vstd::prelude::*;
use crate::cli_error::CliError;
use crate::client::FetchedJson;
use crate::envelope::{
    append_bool, append_u64, bool_field_or_false, bool_text, command_payload, command_payload_json,
    count_or_zero, data_array_member, data_member, data_object, field_text_or, flag_or_false,
    member_or_null, member_or_null_of, number_field_or_zero, text_or, views, CommandResponse,
    HttpMethod, RequestPlan,
};
use crate::find::invalid_envelope_is;
use crate::json::{items_model, json_model, member, Json, JsonV};
use crate::text::{append_str, chars_of, decimal, string_of};

verus! {

/// A `faus jobs` subcommand.
#[derive(Debug)]
pub enum JobsCommand {
    /// List jobs, optionally of one library.
    List { library_id: Option<String> },
    /// Show one job.
    Show { job_id: String },
    /// Cancel a job.
    Cancel { job_id: String },
    /// Resume a terminal retryable job.
    Resume { job_id: String },
    /// Retry a terminal retryable job.
    Retry { job_id: String },
}

/// The request of a jobs subcommand.
pub open spec fn jobs_plan_is(c: JobsCommand, p: RequestPlan) -> bool {
    &&& p.body is None
    &&& match c {
        JobsCommand::List { library_id: None } => p.method == HttpMethod::Get && p.path@ == "/jobs"@,
        JobsCommand::List { library_id: Some(id) } => p.method == HttpMethod::Get && p.path@ == "/jobs?library_id="@
            + id@,
        JobsCommand::Show { job_id } => p.method == HttpMethod::Get && p.path@ == "/jobs/"@ + job_id@,
        JobsCommand::Cancel { job_id } => p.method == HttpMethod::Post && p.path@ == "/jobs/"@ + job_id@ + "/cancel"@,
        JobsCommand::Resume { job_id } => p.method == HttpMethod::Post && p.path@ == "/jobs/"@ + job_id@ + "/resume"@,
        JobsCommand::Retry { job_id } => p.method == HttpMethod::Post && p.path@ == "/jobs/"@ + job_id@ + "/retry"@,
    }
}

fn job_path(job_id: &str, action: &str) -> (r: String)
    ensures
        r@ == "/jobs/"@ + job_id@ + action@,
{
    let mut m = chars_of("/jobs/");
    append_str(&mut m, job_id);
    append_str(&mut m, action);
    string_of(&m)
}

/// The request of a jobs subcommand (see `jobs_plan_is`).
pub fn jobs_request(command: &JobsCommand) -> (r: RequestPlan)
    ensures
        jobs_plan_is(*command, r),
{
    match command {
        JobsCommand::List { library_id: None } => RequestPlan { method: HttpMethod::Get, path: "/jobs".to_owned(), body: None },
        JobsCommand::List { library_id: Some(id) } => {
            let mut m = chars_of("/jobs?library_id=");
            append_str(&mut m, id.as_str());
            RequestPlan { method: HttpMethod::Get, path: string_of(&m), body: None }
        },
        JobsCommand::Show { job_id } => {
            let path = job_path(job_id.as_str(), "");
            proof {
                reveal_strlit("");
                assert(path@ =~= "/jobs/"@ + job_id@);
            }
            RequestPlan { method: HttpMethod::Get, path, body: None }
        },
        JobsCommand::Cancel { job_id } => RequestPlan {
            method: HttpMethod::Post,
            path: job_path(job_id.as_str(), "/cancel"),
            body: None,
        },
        JobsCommand::Resume { job_id } => RequestPlan {
            method: HttpMethod::Post,
            path: job_path(job_id.as_str(), "/resume"),
            body: None,
        },
        JobsCommand::Retry { job_id } => RequestPlan {
            method: HttpMethod::Post,
            path: job_path(job_id.as_str(), "/retry"),
            body: None,
        },
    }
}

/// What a jobs subcommand gives: the jobs array, or one job object.
#[derive(Debug)]
pub enum JobsOutput {
    List { jobs: Json },
    Job { job: Json },
}

/// `r` is the outcome of the response `value` from `url` to the subcommand `c`: `data.jobs`
/// for a list, the `data` object otherwise.
pub open spec fn jobs_response_is(c: JobsCommand, url: Seq<char>, status: u16, value: JsonV, r: Result<
    CommandResponse<JobsOutput>,
    CliError,
>) -> bool {
    match c {
        JobsCommand::List { .. } => match data_member(value, "jobs"@) {
            Some(JsonV::Array(items)) => r matches Ok(resp) && resp.request_url@ == url && resp.http_status == status
                && (resp.output matches JobsOutput::List { jobs } && json_model(jobs) == JsonV::Array(items)),
            _ => r matches Err(e) && invalid_envelope_is(e, url, "data.jobs array"@),
        },
        _ => match member(value, "data"@) {
            Some(d) => if d is Object {
                r matches Ok(resp) && resp.request_url@ == url && resp.http_status == status
                    && (resp.output matches JobsOutput::Job { job } && json_model(job) == d)
            } else {
                r matches Err(e) && invalid_envelope_is(e, url, "data object"@)
            },
            None => r matches Err(e) && invalid_envelope_is(e, url, "data object"@),
        },
    }
}

/// Checks the response to a jobs subcommand (see `jobs_response_is`).
pub fn jobs_response(command: &JobsCommand, request_url: &str, fetched: &FetchedJson) -> (r: Result<
    CommandResponse<JobsOutput>,
    CliError,
>)
    ensures
        jobs_response_is(*command, request_url@, fetched.status, json_model(fetched.value), r),
{
    let output = match command {
        JobsCommand::List { .. } => JobsOutput::List {
            jobs: data_array_member(&fetched.value, request_url, "jobs", "data.jobs array")?,
        },
        _ => JobsOutput::Job { job: data_object(&fetched.value, request_url, "data object")? },
    };
    Ok(CommandResponse { request_url: request_url.to_owned(), http_status: fetched.status, output })
}

/// The JSON output of a jobs subcommand: the jobs under `jobs`, a job under `job`.
pub fn jobs_output_payload(base_url: &str, base_url_source: &str, response: &CommandResponse<JobsOutput>, debug: bool) -> (r: Json)
    ensures
        json_model(r) == match response.output {
            JobsOutput::List { jobs } => command_payload_json(
                base_url@,
                "jobs"@,
                json_model(jobs),
                base_url_source@,
                response.request_url@,
                response.http_status,
                debug,
            ),
            JobsOutput::Job { job } => command_payload_json(
                base_url@,
                "job"@,
                json_model(job),
                base_url_source@,
                response.request_url@,
                response.http_status,
                debug,
            ),
        },
{
    match &response.output {
        JobsOutput::List { jobs } => command_payload(
            base_url,
            "jobs",
            jobs,
            base_url_source,
            response.request_url.as_str(),
            response.http_status,
            debug,
        ),
        JobsOutput::Job { job } => command_payload(
            base_url,
            "job",
            job,
            base_url_source,
            response.request_url.as_str(),
            response.http_status,
            debug,
        ),
    }
}

/// A job's progress: `completed/total unit`.
pub open spec fn progress_text(job: JsonV) -> Seq<char> {
    let p = member_or_null(job, "progress"@);
    decimal(count_or_zero(p, "completed"@) as nat) + "/"@ + decimal(count_or_zero(p, "total"@) as nat) + " "@
        + text_or(p, "unit"@, "unit"@)
}

/// A job's current attempt: `number:status`, then `:summary` when there is one.
pub open spec fn attempt_text(job: JsonV) -> Seq<char> {
    let a = member_or_null(job, "current_attempt"@);
    let head = decimal(count_or_zero(a, "attempt"@) as nat) + ":"@ + text_or(a, "status"@, "unknown"@);
    let summary = text_or(a, "summary"@, ""@);
    if summary.len() == 0 { head } else { head + ":"@ + summary }
}

/// The line that describes a job.
pub open spec fn job_summary_text(job: JsonV) -> Seq<char> {
    text_or(job, "job_id"@, "unknown"@) + "\t"@ + text_or(job, "status"@, "unknown"@) + "\tphase="@ + text_or(
        job,
        "phase"@,
        "unknown"@,
    ) + "\tkind="@ + text_or(job, "kind"@, "unknown"@) + "\tlibrary="@ + text_or(job, "library_id"@, "unknown"@)
        + "\tprogress="@ + progress_text(job) + "\tcancelable="@ + bool_text(flag_or_false(job, "cancelable"@))
        + "\tretryable="@ + bool_text(flag_or_false(job, "retryable"@)) + "\tattempt="@ + attempt_text(job)
}

fn progress_summary(job: &Json) -> (r: String)
    ensures
        r@ == progress_text(json_model(*job)),
{
    let p = member_or_null_of(job, "progress");
    let mut m: Vec<char> = Vec::new();
    append_u64(&mut m, number_field_or_zero(&p, "completed"));
    append_str(&mut m, "/");
    append_u64(&mut m, number_field_or_zero(&p, "total"));
    append_str(&mut m, " ");
    let unit = field_text_or(&p, "unit", "unit");
    append_str(&mut m, unit.as_str());
    assert(m@ =~= progress_text(json_model(*job)));
    string_of(&m)
}

fn attempt_summary(job: &Json) -> (r: String)
    ensures
        r@ == attempt_text(json_model(*job)),
{
    let a = member_or_null_of(job, "current_attempt");
    let mut m: Vec<char> = Vec::new();
    append_u64(&mut m, number_field_or_zero(&a, "attempt"));
    append_str(&mut m, ":");
    let status = field_text_or(&a, "status", "unknown");
    append_str(&mut m, status.as_str());
    let summary = field_text_or(&a, "summary", "");
    let s = chars_of(summary.as_str());
    if s.len() > 0 {
        append_str(&mut m, ":");
        append_str(&mut m, summary.as_str());
    }
    assert(m@ =~= attempt_text(json_model(*job)));
    string_of(&m)
}

/// The line that describes a job (see `job_summary_text`).
pub fn job_summary(job: &Json) -> (r: String)
    ensures
        r@ == job_summary_text(json_model(*job)),
{
    let mut m: Vec<char> = Vec::new();
    append_str(&mut m, field_text_or(job, "job_id", "unknown").as_str());
    append_str(&mut m, "\t");
    append_str(&mut m, field_text_or(job, "status", "unknown").as_str());
    append_str(&mut m, "\tphase=");
    append_str(&mut m, field_text_or(job, "phase", "unknown").as_str());
    append_str(&mut m, "\tkind=");
    append_str(&mut m, field_text_or(job, "kind", "unknown").as_str());
    append_str(&mut m, "\tlibrary=");
    append_str(&mut m, field_text_or(job, "library_id", "unknown").as_str());
    append_str(&mut m, "\tprogress=");
    append_str(&mut m, progress_summary(job).as_str());
    append_str(&mut m, "\tcancelable=");
    append_bool(&mut m, bool_field_or_false(job, "cancelable"));
    append_str(&mut m, "\tretryable=");
    append_bool(&mut m, bool_field_or_false(job, "retryable"));
    append_str(&mut m, "\tattempt=");
    append_str(&mut m, attempt_summary(job).as_str());
    assert(m@ =~= job_summary_text(json_model(*job)));
    string_of(&m)
}

/// The lines of a list of items: `empty` when there is none, else one summary per item.
pub open spec fn summary_lines(items: Seq<JsonV>, empty: Seq<char>, f: spec_fn(JsonV) -> Seq<char>) -> Seq<Seq<char>> {
    if items.len() == 0 { seq![empty] } else { items.map_values(f) }
}

/// The lines that a jobs subcommand prints for a person.
pub open spec fn jobs_human_lines(output: JobsOutput) -> Seq<Seq<char>> {
    match output {
        JobsOutput::List { jobs } => match json_model(jobs) {
            JsonV::Array(items) => summary_lines(items, "No jobs."@, |j: JsonV| job_summary_text(j)),
            _ => seq![],
        },
        JobsOutput::Job { job } => seq![job_summary_text(json_model(job))],
    }
}

/// The lines that a jobs subcommand prints for a person (see `jobs_human_lines`). A list
/// that was checked holds an array.
pub fn jobs_human_output(response: &CommandResponse<JobsOutput>) -> (r: Vec<String>)
    requires
        response.output matches JobsOutput::List { jobs } ==> json_model(jobs) is Array,
    ensures
        views(r@) == jobs_human_lines(response.output),
{
    let mut lines: Vec<String> = Vec::new();
    match &response.output {
        JobsOutput::List { jobs } => match jobs {
            Json::Array(items) => {
                if items.len() == 0 {
                    lines.push("No jobs.".to_owned());
                    assert(views(lines@) =~= jobs_human_lines(response.output));
                    return lines;
                }
                let ghost ms = items_model(items@);
                let mut i: usize = 0;
                while i < items.len()
                    invariant
                        i <= items.len(),
                        ms == items_model(items@),
                        ms.len() == items.len(),
                        views(lines@) == ms.take(i as int).map_values(|j: JsonV| job_summary_text(j)),
                    decreases items.len() - i,
                {
                    let ghost before = lines@;
                    let line = job_summary(&items[i]);
                    lines.push(line);
                    assert(json_model(items@[i as int]) == ms[i as int]);
                    assert(ms.take(i + 1) =~= ms.take(i as int).push(ms[i as int]));
                    assert(views(lines@) =~= views(before).push(line@));
                    i += 1;
                }
                assert(ms.take(items.len() as int) =~= ms);
            },
            _ => {},
        },
        JobsOutput::Job { job } => {
            lines.push(job_summary(job));
            assert(views(lines@) =~= jobs_human_lines(response.output));
        },
    }
    lines
}

} // verus!
