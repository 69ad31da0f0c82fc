//! Error types of the library.

use vstd::prelude::*;

verus! {

/// Why a cursor string failed to decode.
#[derive(Clone, Copy, Debug, PartialEq, Eq, Structural)]
pub enum CursorError {
    /// The string is not a canonical encoding of any cursor payload.
    MalformedCursor,
    /// The payload names a collection outside the known set.
    UnknownCollection,
    /// The id segment is not a canonical decimal that fits in 32 bits.
    InvalidId,
}

/// A cursor string that could not be read, kept for reporting.
#[derive(Clone, Debug, PartialEq)]
pub struct IDFormatError(pub String);

impl IDFormatError {
    /// The rejected input.
    pub fn message(&self) -> (r: &String)
        ensures
            r == self.0,
    {
        &self.0
    }
}

/// A failed fetch against the persistence store, shared by every caller that
/// awaited the same batch or slot.
#[derive(Debug, PartialEq)]
pub struct FetchError {
    pub message: String,
}

impl FetchError {
    /// Wraps a store failure description.
    pub fn new(message: String) -> (r: FetchError)
        ensures
            r.message == message,
    {
        FetchError { message }
    }
}

impl Clone for FetchError {
    /// Hands one shared failure out to another caller, unchanged.
    fn clone(&self) -> (r: FetchError)
        ensures
            r == *self,
    {
        FetchError { message: self.message.clone() }
    }
}

/// A post id that matched neither post subtype.
#[derive(Clone, Copy, Debug, PartialEq, Eq, Structural)]
pub struct UnknownPostError {
    pub post_id: i32,
}

/// Rejections raised while building a connection page.
#[derive(Clone, Copy, Debug, PartialEq, Eq, Structural)]
pub enum RelayError {
    /// A `first` or `last` pagination argument was negative.
    InvalidArgument,
}

/// Service-level failures surfaced to the transport layer.
#[derive(Clone, Debug, PartialEq)]
pub enum ServiceError {
    InternalServerError,
    BadRequest(String),
    JWKSFetchError,
}

impl ServiceError {
    /// A human-readable description, mirroring how each variant displays.
    pub fn message(&self) -> (r: String)
        ensures
            self is BadRequest ==> r == self->BadRequest_0,
    {
        match self {
            ServiceError::InternalServerError => "Internal Server Error".to_owned(),
            ServiceError::BadRequest(m) => m.clone(),
            ServiceError::JWKSFetchError => "JWKSFetchError".to_owned(),
        }
    }
}

} // verus!
