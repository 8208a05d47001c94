use vstd::prelude::*;
use crate::json::{clone_json, empty_members, json_model, pairs_insert, put_member, Json, JsonV};

verus! {

/// The body of an API error.
#[derive(Debug)]
pub struct ErrorPayload {
    pub code: String,
    pub message: String,
    pub details: Option<Json>,
    pub retryable: Option<bool>,
}

/// An error that the HTTP API answers with: an HTTP status and a payload.
#[derive(Debug)]
pub struct ApiError {
    pub status: u16,
    pub payload: ErrorPayload,
}

/// `e` has this status, code, message, details and retry advice.
pub open spec fn api_error_is(e: ApiError, status: u16, code: Seq<char>, message: Seq<char>, details: Option<JsonV>, retryable: bool) -> bool {
    &&& e.status == status
    &&& e.payload.code@ == code
    &&& e.payload.message@ == message
    &&& match e.payload.details {
        Some(d) => details == Some(json_model(d)),
        None => details is None,
    }
    &&& e.payload.retryable == Some(retryable)
}

/// The model of optional details.
pub open spec fn details_model(d: Option<Json>) -> Option<JsonV> {
    match d {
        Some(j) => Some(json_model(j)),
        None => None,
    }
}

fn make(status: u16, code: &str, message: &str, details: Option<Json>, retryable: bool) -> (r: ApiError)
    ensures
        api_error_is(r, status, code@, message@, details_model(details), retryable),
{
    ApiError {
        status,
        payload: ErrorPayload { code: code.to_owned(), message: message.to_owned(), details, retryable: Some(retryable) },
    }
}

impl ApiError {
    /// A request that fails validation (422).
    pub fn validation_failed(message: &str, details: Option<Json>) -> (r: ApiError)
        ensures
            api_error_is(r, 422, "validation_failed"@, message@, details_model(details), false),
    {
        make(422, "validation_failed", message, details, false)
    }

    /// A resource that does not exist (404).
    pub fn not_found(message: &str) -> (r: ApiError)
        ensures
            api_error_is(r, 404, "not_found"@, message@, None, false),
    {
        make(404, "not_found", message, None, false)
    }

    /// A feature that is turned off (409).
    pub fn not_enabled(message: &str, details: Option<Json>) -> (r: ApiError)
        ensures
            api_error_is(r, 409, "not_enabled"@, message@, details_model(details), false),
    {
        make(409, "not_enabled", message, details, false)
    }

    /// A request that the service cannot serve (422).
    pub fn not_supported(message: &str, details: Option<Json>) -> (r: ApiError)
        ensures
            api_error_is(r, 422, "not_supported"@, message@, details_model(details), false),
    {
        make(422, "not_supported", message, details, false)
    }

    /// A resource that is not ready yet (409, retryable).
    pub fn not_ready(message: &str, details: Option<Json>) -> (r: ApiError)
        ensures
            api_error_is(r, 409, "not_ready"@, message@, details_model(details), true),
    {
        make(409, "not_ready", message, details, true)
    }

    /// A runtime dependency that is unavailable (503, retryable).
    pub fn runtime_unavailable(message: &str, details: Option<Json>) -> (r: ApiError)
        ensures
            api_error_is(r, 503, "runtime_unavailable"@, message@, details_model(details), true),
    {
        make(503, "runtime_unavailable", message, details, true)
    }
}

/// The JSON body of an error response: the payload under `error`, without absent members.
pub open spec fn error_envelope_json(p: ErrorPayload) -> JsonV {
    let p1 = pairs_insert(pairs_insert(seq![], "code"@, JsonV::Str(p.code@)), "message"@, JsonV::Str(p.message@));
    let p2 = match p.details {
        Some(d) => pairs_insert(p1, "details"@, json_model(d)),
        None => p1,
    };
    let p3 = match p.retryable {
        Some(b) => pairs_insert(p2, "retryable"@, JsonV::Bool(b)),
        None => p2,
    };
    JsonV::Object(pairs_insert(seq![], "error"@, JsonV::Object(p3)))
}

impl ErrorPayload {
    /// The JSON body of an error response (see `error_envelope_json`).
    pub fn envelope(&self) -> (r: Json)
        ensures
            json_model(r) == error_envelope_json(*self),
    {
        let mut e = empty_members();
        put_member(&mut e, "code", Json::Str(self.code.clone()));
        put_member(&mut e, "message", Json::Str(self.message.clone()));
        match &self.details {
            Some(d) => put_member(&mut e, "details", clone_json(d)),
            None => {},
        }
        match self.retryable {
            Some(b) => put_member(&mut e, "retryable", Json::Bool(b)),
            None => {},
        }
        let mut env = empty_members();
        put_member(&mut env, "error", Json::Object(e));
        Json::Object(env)
    }
}

/// Details that name the request field at fault.
pub fn field_details(field: &str) -> (r: Json)
    ensures
        json_model(r) == JsonV::Object(pairs_insert(seq![], "field"@, JsonV::Str(field@))),
{
    let mut d = empty_members();
    put_member(&mut d, "field", Json::Str(field.to_owned()));
    Json::Object(d)
}

} // verus!
