//! What can go wrong in a fetch cycle, and the errors shown at the boundary.

use vstd::prelude::*;

verus! {

/// Why a fetch cycle failed.
#[derive(Clone, Copy, Debug, PartialEq, Eq, Structural)]
pub enum FetchError {
    /// The upstream could not be reached, or did not answer in time.
    UpstreamUnavailable,
    /// The upstream answered with a status that is neither a success nor the
    /// permission failure that a cycle passes over.
    UpstreamRejected { status: u16 },
    /// The body is no JSON document.
    MalformedResponse,
    /// The store could not take the write.
    StoreUnavailable,
}

/// Nothing has been stored yet: an empty state, no failure.
#[derive(Clone, Copy, Debug, PartialEq, Eq, Structural)]
pub struct NotFound;

/// An error as the boundary reports it, with a code, a message and an
/// identifier by which the report can be traced.
#[derive(Debug)]
pub enum ApiError {
    InternalServerError { code: String, message: String, trace_id: String },
    NotFound { code: String, message: String, trace_id: String },
}

/// `Uuid::new_v4` and `Uuid::to_string`: a random identifier in the
/// hyphenated form, which has 36 characters. Which one comes is not said.
#[verifier::external_body]
fn new_trace_id() -> (out: String)
    ensures
        out@.len() == 36,
{
    uuid::Uuid::new_v4().to_string()
}

impl ApiError {
    pub open spec fn spec_code(self) -> Seq<char> {
        match self {
            ApiError::InternalServerError { code, .. } => code@,
            ApiError::NotFound { code, .. } => code@,
        }
    }

    pub open spec fn spec_message(self) -> Seq<char> {
        match self {
            ApiError::InternalServerError { message, .. } => message@,
            ApiError::NotFound { message, .. } => message@,
        }
    }

    pub open spec fn spec_trace_id(self) -> Seq<char> {
        match self {
            ApiError::InternalServerError { trace_id, .. } => trace_id@,
            ApiError::NotFound { trace_id, .. } => trace_id@,
        }
    }

    /// The HTTP status that goes with the error.
    pub open spec fn spec_status(self) -> u16 {
        match self {
            ApiError::InternalServerError { .. } => 500,
            ApiError::NotFound { .. } => 404,
        }
    }

    /// An internal error with the given trace identifier.
    pub fn internal_with_trace(message: String, trace_id: String) -> (out: Self)
        ensures
            out is InternalServerError,
            out.spec_code() == "INTERNAL_SERVER_ERROR"@,
            out.spec_message() == message@,
            out.spec_trace_id() == trace_id@,
    {
        ApiError::InternalServerError {
            code: "INTERNAL_SERVER_ERROR".to_owned(),
            message,
            trace_id,
        }
    }

    /// A not-found error with the given trace identifier.
    pub fn not_found_with_trace(message: String, trace_id: String) -> (out: Self)
        ensures
            out is NotFound,
            out.spec_code() == "NOT_FOUND"@,
            out.spec_message() == message@,
            out.spec_trace_id() == trace_id@,
    {
        ApiError::NotFound { code: "NOT_FOUND".to_owned(), message, trace_id }
    }

    /// An internal error with a fresh random trace identifier.
    pub fn new_internal_error(message: String) -> (out: Self)
        ensures
            out is InternalServerError,
            out.spec_code() == "INTERNAL_SERVER_ERROR"@,
            out.spec_message() == message@,
            out.spec_trace_id().len() == 36,
    {
        ApiError::internal_with_trace(message, new_trace_id())
    }

    /// A not-found error with a fresh random trace identifier.
    pub fn new_not_found(message: String) -> (out: Self)
        ensures
            out is NotFound,
            out.spec_code() == "NOT_FOUND"@,
            out.spec_message() == message@,
            out.spec_trace_id().len() == 36,
    {
        ApiError::not_found_with_trace(message, new_trace_id())
    }

    /// The HTTP status that goes with the error: 500 or 404.
    pub fn status(&self) -> (out: u16)
        ensures
            out == self.spec_status(),
    {
        match self {
            ApiError::InternalServerError { .. } => 500,
            ApiError::NotFound { .. } => 404,
        }
    }

    pub fn code(&self) -> (out: &str)
        ensures
            out@ == self.spec_code(),
    {
        match self {
            ApiError::InternalServerError { code, .. } => code.as_str(),
            ApiError::NotFound { code, .. } => code.as_str(),
        }
    }

    pub fn message(&self) -> (out: &str)
        ensures
            out@ == self.spec_message(),
    {
        match self {
            ApiError::InternalServerError { message, .. } => message.as_str(),
            ApiError::NotFound { message, .. } => message.as_str(),
        }
    }

    pub fn trace_id(&self) -> (out: &str)
        ensures
            out@ == self.spec_trace_id(),
    {
        match self {
            ApiError::InternalServerError { trace_id, .. } => trace_id.as_str(),
            ApiError::NotFound { trace_id, .. } => trace_id.as_str(),
        }
    }
}

impl FetchError {
    /// A short description, for logs and for the message of an [`ApiError`].
    pub open spec fn spec_describe(self) -> Seq<char> {
        match self {
            FetchError::UpstreamUnavailable => "upstream unavailable"@,
            FetchError::UpstreamRejected { .. } => "upstream rejected the request"@,
            FetchError::MalformedResponse => "malformed response"@,
            FetchError::StoreUnavailable => "store unavailable"@,
        }
    }

    pub fn describe(&self) -> (out: String)
        ensures
            out@ == self.spec_describe(),
    {
        match self {
            FetchError::UpstreamUnavailable => "upstream unavailable".to_owned(),
            FetchError::UpstreamRejected { .. } => "upstream rejected the request".to_owned(),
            FetchError::MalformedResponse => "malformed response".to_owned(),
            FetchError::StoreUnavailable => "store unavailable".to_owned(),
        }
    }

    /// The error as the boundary reports it when an explicit trigger fails:
    /// an internal error that carries the description.
    pub fn to_api_error(&self) -> (out: ApiError)
        ensures
            out is InternalServerError,
            out.spec_code() == "INTERNAL_SERVER_ERROR"@,
            out.spec_message() == self.spec_describe(),
            out.spec_trace_id().len() == 36,
    {
        ApiError::new_internal_error(self.describe())
    }
}

} // verus!
