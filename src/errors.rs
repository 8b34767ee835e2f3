use vstd::prelude::*;

verus! {

/// Errors reported by the library, each with a human-readable message.
#[derive(Debug)]
pub enum ApiError {
    BadRequest(String),
    Unauthorized(String),
    InternalError(String),
    SystemError(String),
}

/// `r` is a bad-request error with message `msg`.
pub open spec fn is_bad_request<T>(r: Result<T, ApiError>, msg: Seq<char>) -> bool {
    r matches Err(ApiError::BadRequest(m)) && m@ == msg
}

/// `r` is an authorization failure with message `msg`.
pub open spec fn is_unauthorized<T>(r: Result<T, ApiError>, msg: Seq<char>) -> bool {
    r matches Err(ApiError::Unauthorized(m)) && m@ == msg
}

impl ApiError {
    /// The message carried by the error.
    pub fn message(&self) -> (r: &String)
        ensures
            r == match self {
                ApiError::BadRequest(m) => m,
                ApiError::Unauthorized(m) => m,
                ApiError::InternalError(m) => m,
                ApiError::SystemError(m) => m,
            },
    {
        match self {
            ApiError::BadRequest(m) => m,
            ApiError::Unauthorized(m) => m,
            ApiError::InternalError(m) => m,
            ApiError::SystemError(m) => m,
        }
    }
}

} // verus!
