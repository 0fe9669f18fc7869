use vstd::prelude::*;

verus! {

/// The kinds of failure that the managers report.
#[derive(Debug, Clone, PartialEq, Eq)]
pub enum ErrorResponseType {
    BadRequest,
    Forbidden,
    Internal,
    NotFound,
    Unauthorized,
    WwwAuthenticate(String),
}

/// A failure together with a human-readable message.
#[derive(Debug, Clone)]
pub struct ErrorResponse {
    pub error: ErrorResponseType,
    pub message: String,
}

impl ErrorResponse {
    pub fn new(error: ErrorResponseType, message: &str) -> (r: ErrorResponse)
        ensures
            r.error == error,
            r.message@ == message@,
    {
        ErrorResponse { error, message: message.to_owned() }
    }
}

} // verus!
