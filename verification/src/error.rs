//! The error kinds that the library reports.

use vstd::prelude::*;
use vstd::string::StringExecFns;

verus! {

/// Why a queue operation did not take effect.
#[derive(Debug)]
pub enum QueueError {
    /// The operation named a job id that the store does not hold.
    NotFound,
    /// A job payload could not be encoded or decoded.
    SerializationError(String),
    /// The storage backend could not complete the operation; the caller may
    /// try again later.
    BackendUnavailable(String),
    /// The job's own logic failed.
    ExecutionError(String),
}

/// Why a request could not be turned into what a handler asked for.
#[derive(Debug)]
pub enum RequestError {
    /// The server could not read the request.
    Server(String),
    /// The request does not have the expected form.
    BadRequest(String),
}

impl RequestError {
    /// The error for a request whose body could not be read, for the given
    /// reason.
    pub fn unreadable_body(reason: &str) -> (error: RequestError)
        ensures
            error is Server,
            error->Server_0@ == "Failed to read body: "@ + reason@,
    {
        RequestError::Server("Failed to read body: ".to_owned().concat(reason))
    }

    /// The message that the error carries.
    pub fn message(&self) -> (text: &str)
        ensures
            text@ == (match self {
                RequestError::Server(message) => message@,
                RequestError::BadRequest(message) => message@,
            }),
    {
        match self {
            RequestError::Server(message) => message.as_str(),
            RequestError::BadRequest(message) => message.as_str(),
        }
    }

    /// Whether this is a bad request whose message starts with `prefix`.
    pub open spec fn is_bad_request_with(self, prefix: Seq<char>) -> bool {
        match self {
            RequestError::BadRequest(message) => prefix.is_prefix_of(message@),
            RequestError::Server(_) => false,
        }
    }
}

/// What running a job yields.
pub type JobResult = Result<(), QueueError>;

impl QueueError {
    /// A short human-readable description, including the attached message.
    pub fn message(&self) -> (text: String)
        ensures
            text@ == self.spec_message(),
    {
        match self {
            QueueError::NotFound => "job not found".to_owned(),
            QueueError::SerializationError(m) => "serialization error: ".to_owned().concat(
                m.as_str(),
            ),
            QueueError::BackendUnavailable(m) => "backend unavailable: ".to_owned().concat(
                m.as_str(),
            ),
            QueueError::ExecutionError(m) => "execution error: ".to_owned().concat(m.as_str()),
        }
    }

    /// The text that [`QueueError::message`] produces.
    pub open spec fn spec_message(&self) -> Seq<char> {
        match self {
            QueueError::NotFound => "job not found"@,
            QueueError::SerializationError(m) => "serialization error: "@ + m@,
            QueueError::BackendUnavailable(m) => "backend unavailable: "@ + m@,
            QueueError::ExecutionError(m) => "execution error: "@ + m@,
        }
    }
}

} // verus!
