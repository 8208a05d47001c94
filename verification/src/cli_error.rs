use vstd::prelude::*;
use crate::json::{insert_member, json_model, pairs_insert, Json, JsonV, Pairs};
use crate::text::{append_chars, append_str, chars_of, string_of};

verus! {

/// An error that the `faus` command line reports: a machine-readable code, a message, and
/// optionally a hint, structured details and whether retrying may help.
#[derive(Debug)]
pub struct CliError {
    pub code: String,
    pub message: String,
    pub hint: Option<String>,
    pub details: Option<Json>,
    pub retryable: Option<bool>,
}

/// `e` has exactly this code, message and hint, and no details or retry advice.
pub open spec fn plain_error_is(e: CliError, code: Seq<char>, message: Seq<char>, hint: Option<Seq<char>>) -> bool {
    &&& e.code@ == code
    &&& e.message@ == message
    &&& crate::config::opt_view(e.hint) == hint
    &&& e.details is None
    &&& e.retryable is None
}

/// `e` has exactly this code, message, hint, details and retry advice.
pub open spec fn error_is(
    e: CliError,
    code: Seq<char>,
    message: Seq<char>,
    hint: Option<Seq<char>>,
    details: Option<JsonV>,
    retryable: Option<bool>,
) -> bool {
    &&& e.code@ == code
    &&& e.message@ == message
    &&& crate::config::opt_view(e.hint) == hint
    &&& match e.details {
        Some(d) => details == Some(json_model(d)),
        None => details is None,
    }
    &&& e.retryable == retryable
}

/// The JSON form of an error: `code` and `message`, then `hint`, `details` and `retryable`
/// when present.
pub open spec fn cli_error_json(e: CliError) -> JsonV {
    let p1 = pairs_insert(seq![], "code"@, JsonV::Str(e.code@));
    let p2 = pairs_insert(p1, "message"@, JsonV::Str(e.message@));
    let p3 = match e.hint {
        Some(h) => pairs_insert(p2, "hint"@, JsonV::Str(h@)),
        None => p2,
    };
    let p4 = match e.details {
        Some(d) => pairs_insert(p3, "details"@, json_model(d)),
        None => p3,
    };
    let p5 = match e.retryable {
        Some(b) => pairs_insert(p4, "retryable"@, JsonV::Bool(b)),
        None => p4,
    };
    JsonV::Object(p5)
}

impl CliError {
    /// An error with a code and a message.
    pub fn new(code: &str, message: &str) -> (r: CliError)
        ensures
            plain_error_is(r, code@, message@, None),
    {
        CliError { code: code.to_owned(), message: message.to_owned(), hint: None, details: None, retryable: None }
    }

    /// The error with a hint.
    pub fn with_hint(self, hint: &str) -> (r: CliError)
        ensures
            r.code == self.code,
            r.message == self.message,
            crate::config::opt_view(r.hint) == Some(hint@),
            r.details == self.details,
            r.retryable == self.retryable,
    {
        CliError { hint: Some(hint.to_owned()), ..self }
    }

    /// The error with structured details.
    pub fn with_details(self, details: Json) -> (r: CliError)
        ensures
            r.code == self.code,
            r.message == self.message,
            r.hint == self.hint,
            r.details == Some(details),
            r.retryable == self.retryable,
    {
        CliError { details: Some(details), ..self }
    }

    /// The error with retry advice.
    pub fn with_retryable(self, retryable: bool) -> (r: CliError)
        ensures
            r.code == self.code,
            r.message == self.message,
            r.hint == self.hint,
            r.details == self.details,
            r.retryable == Some(retryable),
    {
        CliError { retryable: Some(retryable), ..self }
    }

    /// The JSON form of the error (see `cli_error_json`).
    pub fn to_json(self) -> (r: Json)
        ensures
            json_model(r) == cli_error_json(self),
    {
        let ghost e = self;
        let mut error: Vec<(String, Json)> = Vec::new();
        proof {
            assert(crate::json::pairs_model(error@) =~= seq![]);
        }
        insert_member(&mut error, "code".to_owned(), Json::Str(self.code));
        insert_member(&mut error, "message".to_owned(), Json::Str(self.message));
        match self.hint {
            Some(h) => insert_member(&mut error, "hint".to_owned(), Json::Str(h)),
            None => {},
        }
        match self.details {
            Some(d) => insert_member(&mut error, "details".to_owned(), d),
            None => {},
        }
        match self.retryable {
            Some(b) => insert_member(&mut error, "retryable".to_owned(), Json::Bool(b)),
            None => {},
        }
        Json::Object(error)
    }
}

/// How a command's failure is reported.
#[derive(Debug)]
pub enum CliFailure {
    /// A line of text for a person.
    Human(String),
    /// A structured error for a program.
    Json(CliError),
}

impl CliFailure {
    /// The failure of a command that ran into `error`: the error itself when the output is
    /// JSON, else the line `code: message`.
    pub fn client(error: CliError, json_output: bool) -> (r: CliFailure)
        ensures
            json_output ==> r == CliFailure::Json(error),
            !json_output ==> (r matches CliFailure::Human(m) && m@ == error.code@ + ": "@ + error.message@),
    {
        if json_output {
            CliFailure::Json(error)
        } else {
            let mut m = chars_of(error.code.as_str());
            append_str(&mut m, ": ");
            append_chars(&mut m, &chars_of(error.message.as_str()));
            CliFailure::Human(string_of(&m))
        }
    }

    /// The JSON document that reports a structured failure.
    pub fn error_document(error: CliError) -> (r: Json)
        ensures
            json_model(r) == JsonV::Object(
                pairs_insert(pairs_insert(seq![], "status"@, JsonV::Str("error"@)), "error"@, cli_error_json(error)),
            ),
    {
        let mut doc: Vec<(String, Json)> = Vec::new();
        proof {
            assert(crate::json::pairs_model(doc@) =~= seq![]);
        }
        insert_member(&mut doc, "status".to_owned(), Json::Str("error".to_owned()));
        insert_member(&mut doc, "error".to_owned(), error.to_json());
        Json::Object(doc)
    }
}

} // verus!
