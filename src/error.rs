use vstd::prelude::*;

verus! {

#[verifier::external_type_specification]
#[verifier::external_body]
pub struct ExReqwestError(reqwest::Error);

#[verifier::external_type_specification]
#[verifier::external_body]
pub struct ExJsonError(serde_json::Error);

/// Errors reported by the client and by the input validators.
#[derive(Debug)]
pub enum TrimlightError {
    /// The HTTP request could not be completed.
    RequestError(reqwest::Error),
    /// A body could not be encoded or decoded as JSON.
    JsonError(serde_json::Error),
    /// The credentials were rejected or could not be used.
    AuthError(String),
    /// The API, or a client-side validation, answered with a non-zero code.
    ApiError { code: i32, message: String },
}

/// `r` is the `ApiError` with the given code and message.
pub open spec fn rejected_with<T>(r: Result<T, TrimlightError>, code: int, message: Seq<char>) -> bool {
    r matches Err(e) && e.is_api_error(code, message)
}

impl TrimlightError {
    /// Holds when this is an `ApiError` with the given code and message.
    pub open spec fn is_api_error(&self, code: int, message: Seq<char>) -> bool {
        &&& self matches TrimlightError::ApiError { code: c, message: m }
        &&& c as int == code
        &&& m@ == message
    }

    /// Builds an `ApiError` from a code and a message.
    pub fn api_error(code: i32, message: &str) -> (r: TrimlightError)
        ensures
            r.is_api_error(code as int, message@),
    {
        TrimlightError::ApiError { code, message: message.to_string() }
    }
}

} // verus!
