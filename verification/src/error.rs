use vstd::prelude::*;

verus! {

/// An HTTP status code, carried through unread.
#[verifier::external_type_specification]
#[verifier::external_body]
pub struct ExStatusCode(http::StatusCode);

/// An HTTP response whose status the client did not expect.
#[derive(Debug)]
pub struct UnexpectedResponseError {
    pub status: http::StatusCode,
    pub body: String,
    pub user_message: Option<String>,
    pub url: Option<String>,
    pub cf_ray: Option<String>,
    pub request_id: Option<String>,
    pub identity_authorization_error: Option<String>,
    pub identity_error_code: Option<String>,
}

/// The errors that a Responses request can end in.
#[derive(Debug)]
pub enum CodexErr {
    /// The response stream broke off; the server may ask for a delay before the
    /// next attempt.
    Stream(String, Option<std::time::Duration>),
    /// The server refused the request as invalid; the text is the response body.
    InvalidRequest(String),
    /// The server answered with a status the client did not expect.
    UnexpectedStatus(UnexpectedResponseError),
    /// The request timed out.
    Timeout,
    /// The turn was aborted.
    TurnAborted,
}

/// The errors of the Chat Completions endpoint.
#[derive(Debug, Clone, PartialEq, Eq)]
pub enum ApiError {
    /// The event stream failed; the text says how.
    Stream(String),
}

} // verus!
