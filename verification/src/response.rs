//! Rendering the outcome of a request as a status code and a JSON body.

use vstd::prelude::*;
use vstd::string::*;

verus! {

/// The kinds of failure that a request can end in.
#[derive(Clone, Copy, Debug, PartialEq, Eq, Structural)]
pub enum ErrorKind {
    /// No resolver matches the identifier.
    NoMatch,
    /// The identifier or the request context is malformed.
    InvalidInput,
    /// A guard denies what the request asks for.
    Forbidden,
    /// The storage behind the resolver failed.
    BackendError,
    /// A resolver or a storage binding is malformed.
    InternalConfigError,
}

impl ErrorKind {
    /// The HTTP status that stands for this kind.
    pub open spec fn status_spec(self) -> u16 {
        match self {
            ErrorKind::NoMatch => 404,
            ErrorKind::InvalidInput => 400,
            ErrorKind::Forbidden => 403,
            ErrorKind::BackendError => 500,
            ErrorKind::InternalConfigError => 500,
        }
    }

    /// The kind's name as it stands in an error body.
    pub open spec fn name_spec(self) -> Seq<char> {
        match self {
            ErrorKind::NoMatch => "NoMatch"@,
            ErrorKind::InvalidInput => "InvalidInput"@,
            ErrorKind::Forbidden => "Forbidden"@,
            ErrorKind::BackendError => "BackendError"@,
            ErrorKind::InternalConfigError => "InternalConfigError"@,
        }
    }

    pub fn status_code(&self) -> (status: u16)
        ensures
            status == self.status_spec(),
            status == 400 || status == 403 || status == 404 || status == 500,
    {
        match self {
            ErrorKind::NoMatch => 404,
            ErrorKind::InvalidInput => 400,
            ErrorKind::Forbidden => 403,
            ErrorKind::BackendError => 500,
            ErrorKind::InternalConfigError => 500,
        }
    }

    pub fn name(&self) -> (name: &'static str)
        ensures
            name@ == self.name_spec(),
    {
        match self {
            ErrorKind::NoMatch => "NoMatch",
            ErrorKind::InvalidInput => "InvalidInput",
            ErrorKind::Forbidden => "Forbidden",
            ErrorKind::BackendError => "BackendError",
            ErrorKind::InternalConfigError => "InternalConfigError",
        }
    }
}

/// What handling a request came to: the payload of a success, as the JSON
/// text that is sent, or a failure with its kind and message.
#[derive(Debug)]
pub enum Outcome {
    Success(String),
    Failure(ErrorKind, String),
}

/// A response as the transport sends it.
#[derive(Debug)]
pub struct HttpResponse {
    pub status: u16,
    pub body: String,
    pub content_type: String,
}

/// The JSON string literal that `serde_json::to_string` writes for a string:
/// the text in double quotes, with the characters escaped that JSON asks for.
pub uninterp spec fn json_string(text: Seq<char>) -> Seq<char>;

/// Calls `serde_json::to_string` on a string slice. Writing a string into
/// memory has no way to fail in that crate, so the error arm is never taken.
#[verifier::external_body]
fn quote(text: &str) -> (quoted: String)
    ensures
        quoted@ == json_string(text@),
{
    match serde_json::to_string(text) {
        Ok(quoted) => quoted,
        Err(_) => String::new(),
    }
}

/// The status of a success.
pub const STATUS_OK: u16 = 200;

/// The status that an outcome is answered with.
pub open spec fn status_of(outcome: Outcome) -> u16 {
    match outcome {
        Outcome::Success(_) => STATUS_OK,
        Outcome::Failure(kind, _) => kind.status_spec(),
    }
}

/// The body of a failure: an object of two members, `error` and `message`,
/// one to a line and indented by two spaces.
pub open spec fn error_body(kind: ErrorKind, message: Seq<char>) -> Seq<char> {
    "{\n  \"error\": "@ + json_string(kind.name_spec()) + ",\n  \"message\": "@ + json_string(
        message,
    ) + "\n}"@
}

/// The body that an outcome is answered with.
pub open spec fn body_of(outcome: Outcome) -> Seq<char> {
    match outcome {
        Outcome::Success(payload) => payload@,
        Outcome::Failure(kind, message) => error_body(kind, message@),
    }
}

/// Writes the body of a failure.
pub fn render_error(kind: ErrorKind, message: &str) -> (body: String)
    ensures
        body@ == error_body(kind, message@),
{
    let mut body = String::from_str("{\n  \"error\": ");
    let quoted_kind = quote(kind.name());
    body.append(quoted_kind.as_str());
    body.append(",\n  \"message\": ");
    let quoted_message = quote(message);
    body.append(quoted_message.as_str());
    body.append("\n}");
    body
}

/// Renders an outcome: a success keeps its payload and is answered with 200,
/// a failure is answered with the status of its kind and an error body.
pub fn translate(outcome: Outcome) -> (response: HttpResponse)
    ensures
        response.status == status_of(outcome),
        response.body@ == body_of(outcome),
        response.content_type@ == "application/json"@,
{
    let content_type = String::from_str("application/json");
    match outcome {
        Outcome::Success(payload) => HttpResponse { status: STATUS_OK, body: payload, content_type },
        Outcome::Failure(kind, message) => {
            let body = render_error(kind, message.as_str());
            HttpResponse { status: kind.status_code(), body, content_type }
        },
    }
}

/// Renders the result of a handler, an error being a failure's kind and
/// message.
pub fn handle_response(result: Result<String, (ErrorKind, String)>) -> (response: HttpResponse)
    ensures
        response.status == status_of(outcome_of(result)),
        response.body@ == body_of(outcome_of(result)),
        response.content_type@ == "application/json"@,
{
    match result {
        Ok(payload) => translate(Outcome::Success(payload)),
        Err((kind, message)) => translate(Outcome::Failure(kind, message)),
    }
}

/// The outcome that a handler's result stands for.
pub open spec fn outcome_of(result: Result<String, (ErrorKind, String)>) -> Outcome {
    match result {
        Ok(payload) => Outcome::Success(payload),
        Err((kind, message)) => Outcome::Failure(kind, message),
    }
}

} // verus!
