//! The service-level error taxonomy and its mapping to response
//! classes, as the routing layer above the engine consumes it.

use vstd::prelude::*;

verus! {

use crate::backend::BackendError;
use crate::shortener::ShortnerError;
use crate::digits::push_str;

/// Everything a request handler can fail with.
#[derive(Debug)]
pub enum ServiceError {
    /// A failure of the storage engine.
    Backend(BackendError),
    /// A failure of the short-code encoder.
    Sortner(ShortnerError),
    /// The application state was assembled incompletely.
    State(&'static str),
    /// The submitted destination is not a valid URI.
    InvalidURI,
}

/// The HTTP status of each failure: not-found is a missing resource;
/// malformed input (an undecodable short code, a datetime overflow, an
/// invalid URI) is a bad request; everything else is an internal
/// failure, with no backend-specific detail leaked.
pub open spec fn status_of(e: ServiceError) -> int {
    match e {
        ServiceError::Backend(BackendError::NotFound) => 404,
        ServiceError::Backend(BackendError::DateTimeOverflow) => 400,
        ServiceError::Sortner(ShortnerError::Decode(_)) => 400,
        ServiceError::InvalidURI => 400,
        _ => 500,
    }
}

impl ServiceError {
    /// The HTTP status code this failure surfaces as.
    pub fn status_code(&self) -> (r: u16)
        ensures
            r == status_of(*self),
    {
        match self {
            ServiceError::Backend(BackendError::NotFound) => 404,
            ServiceError::Backend(BackendError::DateTimeOverflow) => 400,
            ServiceError::Sortner(ShortnerError::Decode(_)) => 400,
            ServiceError::InvalidURI => 400,
            _ => 500,
        }
    }

    /// A human-readable description, in place of `Display`.
    pub fn message(&self) -> (r: String)
        ensures
            self matches ServiceError::Backend(b) ==> b is NotFound ==> r@ == "Shorten not found"@,
            self matches ServiceError::State(m) ==> r@ == "State builder error: "@ + m@,
            self is InvalidURI ==> r@ == "Invalid URI"@,
    {
        match self {
            ServiceError::Backend(b) => b.message(),
            ServiceError::Sortner(s) => s.message(),
            ServiceError::State(m) => {
                let mut out = "State builder error: ".to_owned();
                push_str(&mut out, m);
                out
            },
            ServiceError::InvalidURI => "Invalid URI".to_owned(),
        }
    }
}

} // verus!
