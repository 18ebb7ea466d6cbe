//! The client's side of the wire: where each request goes, and what a
//! failed request means.

use crate::transport::{STATUS_CONFLICT, STATUS_UNAUTHORIZED};
use vstd::prelude::*;
use vstd::string::StringExecFns;

verus! {

/// Why a request of the client failed.
#[derive(Debug)]
pub enum Error {
    ClientCreationFailed,
    EventSourceCreationFailed,
    UnexpectedStatusCode { code: u16, endpoint: String },
    InvalidRespone,
    Generic,
    ConnectionFailure,
    NotAuthorized,
    LoginFailed,
    DeserializingFailed,
    UsernameInUse,
}

/// What an [`Error`] stands for in contracts.
pub enum ErrorView {
    ClientCreationFailed,
    EventSourceCreationFailed,
    UnexpectedStatusCode { code: u16, endpoint: Seq<char> },
    InvalidRespone,
    Generic,
    ConnectionFailure,
    NotAuthorized,
    LoginFailed,
    DeserializingFailed,
    UsernameInUse,
}

impl View for Error {
    type V = ErrorView;

    open spec fn view(&self) -> ErrorView {
        match *self {
            Error::ClientCreationFailed => ErrorView::ClientCreationFailed,
            Error::EventSourceCreationFailed => ErrorView::EventSourceCreationFailed,
            Error::UnexpectedStatusCode { code, endpoint } => ErrorView::UnexpectedStatusCode {
                code,
                endpoint: endpoint@,
            },
            Error::InvalidRespone => ErrorView::InvalidRespone,
            Error::Generic => ErrorView::Generic,
            Error::ConnectionFailure => ErrorView::ConnectionFailure,
            Error::NotAuthorized => ErrorView::NotAuthorized,
            Error::LoginFailed => ErrorView::LoginFailed,
            Error::DeserializingFailed => ErrorView::DeserializingFailed,
            Error::UsernameInUse => ErrorView::UsernameInUse,
        }
    }
}

/// What is known of a request that failed.
#[derive(Debug, Clone, Copy, PartialEq, Eq, Structural)]
pub struct RequestFailure {
    /// The connection could not be made.
    pub is_connect: bool,
    /// The request could not be sent.
    pub is_request: bool,
    /// The server answered with a status that is a failure.
    pub is_status: bool,
    /// The status that the server answered with, if it answered.
    pub status: Option<u16>,
}

/// What a failed request to `endpoint` means. A failure to connect comes
/// before a failure to send, and that before a status.
pub open spec fn error_of(failure: RequestFailure, endpoint: Seq<char>) -> ErrorView {
    if failure.is_connect {
        ErrorView::ConnectionFailure
    } else if failure.is_request {
        ErrorView::InvalidRespone
    } else if failure.is_status && failure.status is Some {
        if failure.status == Some(STATUS_UNAUTHORIZED) {
            ErrorView::NotAuthorized
        } else {
            ErrorView::UnexpectedStatusCode { code: failure.status->0, endpoint }
        }
    } else {
        ErrorView::Generic
    }
}

/// What a failed request to `endpoint` means.
pub fn handle_error(failure: &RequestFailure, endpoint: &str) -> (error: Error)
    ensures
        error@ == error_of(*failure, endpoint@),
{
    if failure.is_connect {
        return Error::ConnectionFailure;
    }
    if failure.is_request {
        return Error::InvalidRespone;
    }
    if failure.is_status {
        if let Some(code) = failure.status {
            if code == STATUS_UNAUTHORIZED {
                return Error::NotAuthorized;
            }
            return Error::UnexpectedStatusCode { code, endpoint: String::from_str(endpoint) };
        }
    }
    Error::Generic
}

/// What a failed request to register means: a conflict is a name in use,
/// whatever else is known of the failure.
pub fn register_error(failure: &RequestFailure) -> (error: Error)
    ensures
        error@ == (if failure.status == Some(STATUS_CONFLICT) {
            ErrorView::UsernameInUse
        } else {
            error_of(*failure, "/register"@)
        }),
{
    match failure.status {
        Some(code) => {
            if code == STATUS_CONFLICT {
                return Error::UsernameInUse;
            }
        },
        None => {},
    }
    handle_error(failure, "/register")
}

/// Whether the status with which the server answered a login says that
/// the login failed.
pub fn login_refused(status: u16) -> (refused: bool)
    ensures
        refused == (status == STATUS_UNAUTHORIZED),
{
    status == STATUS_UNAUTHORIZED
}

/// The address of `endpoint` on the server at `address`.
pub fn endpoint_url(address: &str, endpoint: &str) -> (url: String)
    ensures
        url@ == "http://"@ + address@ + endpoint@,
{
    String::from_str("http://").concat(address).concat(endpoint)
}

impl Error {
    /// The text shown to a person for this error.
    pub open spec fn spec_message(error: ErrorView) -> Seq<char> {
        match error {
            ErrorView::ClientCreationFailed => "Could not create HTTP client."@,
            ErrorView::EventSourceCreationFailed => "Could not create EventSource handler."@,
            ErrorView::UnexpectedStatusCode { code, endpoint } => "The server returned a unexpected status "@
                + crate::text::decimal_of(code as int) + " when acessing the "@ + endpoint
                + " endpoint. This is a server bug."@,
            ErrorView::InvalidRespone => "The server returned a invalid or malformed response. This is a server bug."@,
            ErrorView::Generic => "A error occured whilst performing a request to the server."@,
            ErrorView::ConnectionFailure => "Connection failed. Check your connection or the server address"@,
            ErrorView::NotAuthorized => "Authentication failed. Login again and try again."@,
            ErrorView::LoginFailed => "Failed to login. Check your credentials or try again later."@,
            ErrorView::DeserializingFailed => "Failed to deserialize data received from the server. This is a bug."@,
            ErrorView::UsernameInUse => "Could not register. The username is already in use."@,
        }
    }

    pub fn message(&self) -> (text: String)
        ensures
            text@ == Self::spec_message(self@),
    {
        match self {
            Error::ClientCreationFailed => String::from_str("Could not create HTTP client."),
            Error::EventSourceCreationFailed => String::from_str(
                "Could not create EventSource handler.",
            ),
            Error::UnexpectedStatusCode { code, endpoint } => {
                let number = crate::text::decimal(*code as i32);
                String::from_str("The server returned a unexpected status ").concat(
                    number.as_str(),
                ).concat(" when acessing the ").concat(endpoint.as_str()).concat(
                    " endpoint. This is a server bug.",
                )
            },
            Error::InvalidRespone => String::from_str(
                "The server returned a invalid or malformed response. This is a server bug.",
            ),
            Error::Generic => String::from_str(
                "A error occured whilst performing a request to the server.",
            ),
            Error::ConnectionFailure => String::from_str(
                "Connection failed. Check your connection or the server address",
            ),
            Error::NotAuthorized => String::from_str(
                "Authentication failed. Login again and try again.",
            ),
            Error::LoginFailed => String::from_str(
                "Failed to login. Check your credentials or try again later.",
            ),
            Error::DeserializingFailed => String::from_str(
                "Failed to deserialize data received from the server. This is a bug.",
            ),
            Error::UsernameInUse => String::from_str(
                "Could not register. The username is already in use.",
            ),
        }
    }
}

} // verus!
