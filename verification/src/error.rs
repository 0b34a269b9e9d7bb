//! Errors of the request handlers.

use vstd::prelude::*;
use vstd::string::StringExecFns;

use crate::protocol::status::NtStatus;

verus! {

/// `std::io::Error`, carried through unchanged.
#[verifier::external_type_specification]
#[verifier::external_body]
pub struct ExIoError(std::io::Error);

/// `Display` of `std::io::Error`: what the error says of itself, which depends
/// on the platform.
#[verifier::external_body]
fn io_error_text(e: &std::io::Error) -> (text: String) {
    format!("{}", e)
}

/// What can go wrong while a request is handled.
#[derive(Debug)]
pub enum HandlerError {
    /// Reading from or writing to the connection failed.
    Io(std::io::Error),
    /// The message does not follow the protocol.
    Protocol(String),
    /// The authentication provider failed.
    Auth(String),
    /// The storage backend failed.
    Vfs(String),
    /// The state store or the coordinator failed.
    Internal(String),
    /// The request is answered with this status.
    Status(NtStatus),
}

impl HandlerError {
    /// The status that the error is answered with.
    pub open spec fn spec_status(self) -> NtStatus {
        match self {
            HandlerError::Io(_) => NtStatus::InternalError,
            HandlerError::Protocol(_) => NtStatus::InvalidParameter,
            HandlerError::Auth(_) => NtStatus::LogonFailure,
            HandlerError::Vfs(_) => NtStatus::ObjectNameNotFound,
            HandlerError::Internal(_) => NtStatus::InternalError,
            HandlerError::Status(s) => s,
        }
    }

    /// What the error is introduced with where it is put into words.
    pub open spec fn label(self) -> Seq<char> {
        match self {
            HandlerError::Io(_) => "I/O error: "@,
            HandlerError::Protocol(_) => "Protocol error: "@,
            HandlerError::Auth(_) => "Auth error: "@,
            HandlerError::Vfs(_) => "VFS error: "@,
            HandlerError::Internal(_) => "Internal error: "@,
            HandlerError::Status(_) => "Status: "@,
        }
    }

    /// The error in words. What an I/O error says of itself is up to the
    /// platform.
    pub fn message(&self) -> (text: String)
        ensures
            self.label().is_prefix_of(text@),
            match *self {
                HandlerError::Io(_) => true,
                HandlerError::Protocol(t) => text@ == self.label() + t@,
                HandlerError::Auth(t) => text@ == self.label() + t@,
                HandlerError::Vfs(t) => text@ == self.label() + t@,
                HandlerError::Internal(t) => text@ == self.label() + t@,
                HandlerError::Status(s) => text@ == self.label() + s.spec_name(),
            },
    {
        match self {
            HandlerError::Io(e) => "I/O error: ".to_owned().concat(io_error_text(e).as_str()),
            HandlerError::Protocol(t) => "Protocol error: ".to_owned().concat(t.as_str()),
            HandlerError::Auth(t) => "Auth error: ".to_owned().concat(t.as_str()),
            HandlerError::Vfs(t) => "VFS error: ".to_owned().concat(t.as_str()),
            HandlerError::Internal(t) => "Internal error: ".to_owned().concat(t.as_str()),
            HandlerError::Status(s) => "Status: ".to_owned().concat(s.name()),
        }
    }

    pub fn status(&self) -> (s: NtStatus)
        ensures
            s == self.spec_status(),
    {
        match self {
            HandlerError::Io(_) => NtStatus::InternalError,
            HandlerError::Protocol(_) => NtStatus::InvalidParameter,
            HandlerError::Auth(_) => NtStatus::LogonFailure,
            HandlerError::Vfs(_) => NtStatus::ObjectNameNotFound,
            HandlerError::Internal(_) => NtStatus::InternalError,
            HandlerError::Status(s) => *s,
        }
    }
}

impl From<std::io::Error> for HandlerError {
    fn from(e: std::io::Error) -> (r: Self) {
        HandlerError::Io(e)
    }
}

impl vstd::std_specs::convert::FromSpecImpl<std::io::Error> for HandlerError {
    open spec fn obeys_from_spec() -> bool {
        true
    }

    open spec fn from_spec(e: std::io::Error) -> Self {
        HandlerError::Io(e)
    }
}

/// The error that refuses a request with a status.
pub open spec fn refused<T>(result: Result<T, HandlerError>, status: NtStatus) -> bool {
    result matches Err(HandlerError::Status(s)) && s == status
}

/// The error that reports a malformed message, with its text.
pub open spec fn malformed<T>(result: Result<T, HandlerError>, text: Seq<char>) -> bool {
    result matches Err(HandlerError::Protocol(t)) && t@ == text
}

/// A protocol error with the given text.
pub fn protocol_error(text: &str) -> (e: HandlerError)
    ensures
        e matches HandlerError::Protocol(t) && t@ == text@,
{
    HandlerError::Protocol(text.to_owned())
}

/// How each error is answered: a request that is refused with the status that it
/// is refused with, one that cannot be read as having a wrong parameter, a
/// failed authentication as a failed logon, a failure of the backend as a file
/// that is not there, and every other failure as one of the server.
pub proof fn law_errors_are_answered(e: HandlerError)
    ensures
        e matches HandlerError::Status(s) ==> e.spec_status() == s,
        e is Protocol ==> e.spec_status() == NtStatus::InvalidParameter,
        e is Auth ==> e.spec_status() == NtStatus::LogonFailure,
        e is Vfs ==> e.spec_status() == NtStatus::ObjectNameNotFound,
        e is Internal || e is Io ==> e.spec_status() == NtStatus::InternalError,
        e is Protocol || e is Auth || e is Vfs || e is Internal || e is Io ==> e.spec_status()
            != NtStatus::Success,
{
}

} // verus!
