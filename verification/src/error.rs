//! The error answered to a request, with its HTTP status.

use vstd::prelude::*;

verus! {

/// The HTTP status of a refused request.
#[derive(Clone, Copy, Debug, PartialEq, Eq, Structural)]
pub enum ErrorStatus {
    BadRequest,
    NotFound,
    Internal,
}

impl ErrorStatus {
    pub open spec fn spec_code(self) -> u16 {
        match self {
            ErrorStatus::BadRequest => 400,
            ErrorStatus::NotFound => 404,
            ErrorStatus::Internal => 500,
        }
    }

    /// The numeric HTTP status code.
    pub fn code(self) -> (c: u16)
        ensures
            c == self.spec_code(),
    {
        match self {
            ErrorStatus::BadRequest => 400,
            ErrorStatus::NotFound => 404,
            ErrorStatus::Internal => 500,
        }
    }
}

/// A refused request: its status and the message sent back as `{"error": ...}`.
#[derive(Debug)]
pub struct ApiError {
    pub status: ErrorStatus,
    pub message: String,
}

impl ApiError {
    pub fn new(status: ErrorStatus, message: String) -> (e: ApiError)
        ensures
            e.status == status,
            e.message == message,
    {
        ApiError { status, message }
    }

    pub fn bad_request(message: String) -> (e: ApiError)
        ensures
            e.status == ErrorStatus::BadRequest,
            e.message == message,
    {
        Self::new(ErrorStatus::BadRequest, message)
    }

    pub fn not_found(message: String) -> (e: ApiError)
        ensures
            e.status == ErrorStatus::NotFound,
            e.message == message,
    {
        Self::new(ErrorStatus::NotFound, message)
    }

    pub fn internal(message: String) -> (e: ApiError)
        ensures
            e.status == ErrorStatus::Internal,
            e.message == message,
    {
        Self::new(ErrorStatus::Internal, message)
    }

    /// A failure reported by the database: the client's statement or
    /// connection settings were refused, so it is a bad request.
    pub fn from_database_error(message: String) -> (e: ApiError)
        ensures
            e.status == ErrorStatus::BadRequest,
            e.message == message,
    {
        Self::bad_request(message)
    }

    /// A failure of the local file system.
    pub fn from_io_error(message: String) -> (e: ApiError)
        ensures
            e.status == ErrorStatus::Internal,
            e.message == message,
    {
        Self::internal(message)
    }

    /// A failure to read or write the saved connections as JSON.
    pub fn from_json_error(message: String) -> (e: ApiError)
        ensures
            e.status == ErrorStatus::Internal,
            e.message == message,
    {
        Self::internal(message)
    }
}

} // verus!
