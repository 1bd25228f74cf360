//! The ways in which the broker fails a request.

use crate::message::{plain_reply, Response, ResponseView, Status};
use vstd::prelude::*;

verus! {

/// Why a request was refused.
#[derive(Clone, Copy, Debug, PartialEq, Eq, Structural)]
pub enum BrokerError {
    /// Nothing is reached under the path or the identifier, or not with
    /// the Observe value that the request holds.
    NotFound,
    /// The request cannot be understood: its body is malformed, or its path
    /// is too short.
    BadRequest,
    /// An identifier is taken already.
    Conflict,
}

impl BrokerError {
    /// The response code that reports the error.
    pub open spec fn spec_status(self) -> Status {
        match self {
            BrokerError::NotFound => Status::NotFound,
            BrokerError::BadRequest => Status::BadRequest,
            BrokerError::Conflict => Status::ServiceUnavailable,
        }
    }

    /// The words that report the error.
    pub open spec fn spec_message(self) -> Seq<char> {
        match self {
            BrokerError::NotFound => "Not found"@,
            BrokerError::BadRequest => "Bad request"@,
            BrokerError::Conflict => "No free identifier"@,
        }
    }

    /// The response code that reports the error.
    #[verifier::when_used_as_spec(spec_status)]
    pub fn status(self) -> (status: Status)
        ensures
            status == self.spec_status(),
    {
        match self {
            BrokerError::NotFound => Status::NotFound,
            BrokerError::BadRequest => Status::BadRequest,
            BrokerError::Conflict => Status::ServiceUnavailable,
        }
    }

    /// The words that report the error.
    pub fn message(self) -> (message: &'static str)
        ensures
            message@ == self.spec_message(),
    {
        match self {
            BrokerError::NotFound => "Not found",
            BrokerError::BadRequest => "Bad request",
            BrokerError::Conflict => "No free identifier",
        }
    }

    /// The response that reports the error.
    pub fn response(self) -> (response: Response)
        ensures
            response@ == error_reply(self),
    {
        Response::plain(self.status(), self.message())
    }
}

/// The response that reports an error: its code, and its words as the
/// payload.
pub open spec fn error_reply(error: BrokerError) -> ResponseView {
    plain_reply(error.spec_status(), error.spec_message())
}

} // verus!
