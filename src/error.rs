//! Errors of the reservation client and of the service gateway.
use vstd::prelude::*;

verus! {

/// What went wrong in a client operation. Each variant carries a message
/// for the user.
#[derive(Debug, PartialEq, Eq)]
pub enum ResyClientError {
    NotFound(String),
    NetworkError(String),
    ApiError(String),
    InternalError(String),
    InvalidInput(String),
    ParseError(String),
    BookingError(String),
}

impl ResyClientError {
    /// An equal error.
    pub fn duplicate(&self) -> (r: ResyClientError)
        ensures
            r == *self,
    {
        match self {
            ResyClientError::NotFound(m) => ResyClientError::NotFound(m.clone()),
            ResyClientError::NetworkError(m) => ResyClientError::NetworkError(m.clone()),
            ResyClientError::ApiError(m) => ResyClientError::ApiError(m.clone()),
            ResyClientError::InternalError(m) => ResyClientError::InternalError(m.clone()),
            ResyClientError::InvalidInput(m) => ResyClientError::InvalidInput(m.clone()),
            ResyClientError::ParseError(m) => ResyClientError::ParseError(m.clone()),
            ResyClientError::BookingError(m) => ResyClientError::BookingError(m.clone()),
        }
    }

    /// The message carried by the error.
    pub fn message(&self) -> (r: &String)
        ensures
            r@ == self.message_spec(),
    {
        match self {
            ResyClientError::NotFound(m) => m,
            ResyClientError::NetworkError(m) => m,
            ResyClientError::ApiError(m) => m,
            ResyClientError::InternalError(m) => m,
            ResyClientError::InvalidInput(m) => m,
            ResyClientError::ParseError(m) => m,
            ResyClientError::BookingError(m) => m,
        }
    }

    pub open spec fn message_spec(&self) -> Seq<char> {
        match self {
            ResyClientError::NotFound(m) => m@,
            ResyClientError::NetworkError(m) => m@,
            ResyClientError::ApiError(m) => m@,
            ResyClientError::InternalError(m) => m@,
            ResyClientError::InvalidInput(m) => m@,
            ResyClientError::ParseError(m) => m@,
            ResyClientError::BookingError(m) => m@,
        }
    }
}

/// An error reported by the service gateway: a failed request or a
/// non-success status.
#[derive(Debug, PartialEq, Eq)]
pub struct ResyAPIError {
    pub message: String,
}

impl ResyAPIError {
    pub fn new(message: String) -> (r: ResyAPIError)
        ensures
            r.message == message,
    {
        ResyAPIError { message }
    }
}

} // verus!
