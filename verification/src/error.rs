//! How a request can fail, and the status code of each failure.

use vstd::prelude::*;

verus! {

/// Why a request was refused.
#[derive(Debug, PartialEq, Eq)]
pub enum RequestError {
    /// The plant, or its measurement, does not exist (status 404), with the
    /// message that the answer carries.
    NotFound(String),
    /// The request's data cannot be stored (status 400).
    BadRequest,
    /// The store cannot take the row (status 500).
    Internal,
}

/// The HTTP status code that answers an error.
pub open spec fn status_of(e: RequestError) -> u16 {
    match e {
        RequestError::NotFound(_) => 404,
        RequestError::BadRequest => 400,
        RequestError::Internal => 500,
    }
}

impl RequestError {
    /// The HTTP status code of this error.
    pub fn status(&self) -> (code: u16)
        ensures
            code == status_of(*self),
    {
        match self {
            RequestError::NotFound(_) => 404,
            RequestError::BadRequest => 400,
            RequestError::Internal => 500,
        }
    }
}

/// A 404 error whose message is `prefix` followed by `name`.
pub fn not_found(prefix: &str, name: &str) -> (e: RequestError)
    ensures
        e is NotFound,
        e->NotFound_0@ == prefix@ + name@,
{
    let mut message = prefix.to_owned();
    message.append(name);
    RequestError::NotFound(message)
}

} // verus!
