//! What the service says to a request on the wire: how a caller proves who
//! it is, and which status answers which outcome.
//!
//! A caller sends its token in the `Authorization` header, as
//! `Bearer <token>`. A request without that header, or with one of another
//! shape, is refused as a bad request; one whose token is not valid, as
//! forbidden.

use crate::clock::current_time_millis;
use crate::errors::{AppError, DbError};
use crate::service::{ChatApp, ChatAppView};
use crate::session::after_lookup;
use crate::token::LoginToken;
use vstd::prelude::*;
use vstd::string::{StrSliceExecFns, StringExecFns};

verus! {

/// The status of a request that was carried out.
pub const STATUS_OK: u16 = 200;

/// The status of a request whose `Authorization` header is missing or
/// malformed.
pub const STATUS_BAD_REQUEST: u16 = 400;

/// The status of a login that failed.
pub const STATUS_UNAUTHORIZED: u16 = 401;

/// The status of a request whose token is not valid.
pub const STATUS_FORBIDDEN: u16 = 403;

/// The status of a registration under a name that is taken.
pub const STATUS_CONFLICT: u16 = 409;

/// The status of a request that failed for a reason the caller is not told.
pub const STATUS_INTERNAL_SERVER_ERROR: u16 = 500;

/// What is wrong with the key that a request came with.
#[derive(Debug, Clone, Copy, PartialEq, Eq, Structural)]
pub enum ApiKeyError {
    Missing,
    Invalid,
}

/// A request that was refused before it was looked at: the status to
/// answer with, and why.
#[derive(Debug, Clone, Copy, PartialEq, Eq, Structural)]
pub struct Rejection {
    pub status: u16,
    pub error: ApiKeyError,
}

/// How a registration ended, as the caller is told.
#[derive(Debug, Clone, Copy, PartialEq, Eq, Structural)]
pub enum RegisterResult {
    Registered,
    UsernameTaken,
    Error,
}

/// The token in an `Authorization` header: what follows `Bearer `, if the
/// header begins so.
pub open spec fn bearer_token(header: Seq<char>) -> Option<Seq<char>> {
    if "Bearer "@.is_prefix_of(header) {
        Some(header.skip(7))
    } else {
        None
    }
}

/// The token in an `Authorization` header.
pub fn parse_bearer(header: &str) -> (token: Option<LoginToken>)
    ensures
        match token {
            Some(t) => bearer_token(header@) == Some(t@),
            None => bearer_token(header@) is None,
        },
{
    let prefix = "Bearer ";
    proof {
        reveal_strlit("Bearer ");
    }
    let len = header.unicode_len();
    if len < 7 {
        return None;
    }
    let mut i: usize = 0;
    while i < 7
        invariant
            i <= 7,
            len == header@.len(),
            len >= 7,
            prefix@ == "Bearer "@,
            prefix@.len() == 7,
            forall|k: int| 0 <= k < i ==> header@[k] == prefix@[k],
        decreases 7 - i,
    {
        if header.get_char(i) != prefix.get_char(i) {
            return None;
        }
        i += 1;
    }
    assert(prefix@ =~= header@.subrange(0, 7));
    let token = String::from_str(header.substring_char(7, len));
    assert(token@ =~= header@.skip(7));
    Some(LoginToken(token))
}

/// Why a request with the given header is refused at `now`, if it is.
pub open spec fn authorize_outcome(app: ChatAppView, header: Option<Seq<char>>, now: i64) -> Result<
    Seq<char>,
    Rejection,
> {
    match header {
        None => Err(Rejection { status: STATUS_BAD_REQUEST, error: ApiKeyError::Missing }),
        Some(header) => match bearer_token(header) {
            None => Err(Rejection { status: STATUS_BAD_REQUEST, error: ApiKeyError::Invalid }),
            Some(token) => if app.user_for_token(token, now) is Ok {
                Ok(token)
            } else {
                Err(Rejection { status: STATUS_FORBIDDEN, error: ApiKeyError::Invalid })
            },
        },
    }
}

/// The sessions after a request with the given header was looked at: the
/// token, where there was one, was looked up.
pub open spec fn after_authorize(app: ChatAppView, header: Option<Seq<char>>, now: i64) -> ChatAppView {
    match header {
        None => app,
        Some(header) => match bearer_token(header) {
            None => app,
            Some(token) => app.with_sessions(after_lookup(app.sessions, token, now)),
        },
    }
}

/// An answer that holds a token, as contracts see it.
pub open spec fn authorized_view(r: Result<LoginToken, Rejection>) -> Result<Seq<char>, Rejection> {
    match r {
        Ok(token) => Ok(token@),
        Err(rejection) => Err(rejection),
    }
}

/// A header that may be there, as contracts see it.
pub open spec fn header_view(header: Option<&str>) -> Option<Seq<char>> {
    match header {
        Some(header) => Some(header@),
        None => None,
    }
}

/// Decides at `now` whether a request may go on: it may if its
/// `Authorization` header holds a token that stands for a user. The answer
/// is the token.
pub fn authorize_at(app: &mut ChatApp, header: Option<&str>, now: i64) -> (r: Result<
    LoginToken,
    Rejection,
>)
    requires
        old(app).wf(),
    ensures
        final(app).wf(),
        authorized_view(r) == authorize_outcome(old(app)@, header_view(header), now),
        final(app)@ == after_authorize(old(app)@, header_view(header), now),
{
    let header = match header {
        Some(header) => header,
        None => {
            return Err(Rejection { status: STATUS_BAD_REQUEST, error: ApiKeyError::Missing });
        },
    };
    let token = match parse_bearer(header) {
        Some(token) => token,
        None => {
            return Err(Rejection { status: STATUS_BAD_REQUEST, error: ApiKeyError::Invalid });
        },
    };
    match app.get_user_for_token_at(&token, now) {
        Ok(_) => Ok(token),
        Err(_) => Err(Rejection { status: STATUS_FORBIDDEN, error: ApiKeyError::Invalid }),
    }
}

/// Whether `after` is what `before` becomes when a request with the given
/// header is looked at at `now`, with `outcome` as the answer.
pub open spec fn is_authorization(
    before: ChatAppView,
    after: ChatAppView,
    outcome: Result<Seq<char>, Rejection>,
    header: Option<Seq<char>>,
    now: i64,
) -> bool {
    outcome == authorize_outcome(before, header, now) && after == after_authorize(
        before,
        header,
        now,
    )
}

/// Decides at the present time whether a request may go on.
pub fn authorize(app: &mut ChatApp, header: Option<&str>) -> (r: Result<LoginToken, Rejection>)
    requires
        old(app).wf(),
    ensures
        final(app).wf(),
        exists|now: i64| #[trigger]
            is_authorization(old(app)@, final(app)@, authorized_view(r), header_view(header), now),
{
    let now = current_time_millis();
    let r = authorize_at(app, header, now);
    assert(is_authorization(old(app)@, app@, authorized_view(r), header_view(header), now));
    r
}

impl RegisterResult {
    /// How a registration that answered `outcome` ended, as the caller is
    /// told: a name in use is named, every other failure is not.
    pub fn of(outcome: &Result<(), AppError>) -> (result: RegisterResult)
        ensures
            result == (match *outcome {
                Ok(_) => RegisterResult::Registered,
                Err(AppError::DatabaseError(DbError::UsernameInUse)) => RegisterResult::UsernameTaken,
                Err(_) => RegisterResult::Error,
            }),
    {
        match outcome {
            Ok(_) => RegisterResult::Registered,
            Err(AppError::DatabaseError(DbError::UsernameInUse)) => RegisterResult::UsernameTaken,
            Err(_) => RegisterResult::Error,
        }
    }

    /// The status that answers the registration.
    pub fn status(&self) -> (status: u16)
        ensures
            status == (match *self {
                RegisterResult::Registered => STATUS_OK,
                RegisterResult::UsernameTaken => STATUS_CONFLICT,
                RegisterResult::Error => STATUS_INTERNAL_SERVER_ERROR,
            }),
    {
        match self {
            RegisterResult::Registered => STATUS_OK,
            RegisterResult::UsernameTaken => STATUS_CONFLICT,
            RegisterResult::Error => STATUS_INTERNAL_SERVER_ERROR,
        }
    }

    /// The text that goes with the status, if any.
    pub fn body(&self) -> (text: Option<String>)
        ensures
            match *self {
                RegisterResult::UsernameTaken => text matches Some(t) && t@
                    == "Username is already taken."@,
                _ => text is None,
            },
    {
        match self {
            RegisterResult::UsernameTaken => Some(String::from_str("Username is already taken.")),
            _ => None,
        }
    }
}

/// The status that answers a login, with the text that goes with it.
pub fn login_response(outcome: &Result<LoginToken, AppError>) -> (r: (u16, Option<String>))
    ensures
        r.0 == (if *outcome is Ok {
            STATUS_OK
        } else {
            STATUS_UNAUTHORIZED
        }),
        match *outcome {
            Ok(_) => r.1 is None,
            Err(_) => r.1 matches Some(t) && t@
                == "Authentication Failure. Check your credentials or try again later."@,
        },
{
    match outcome {
        Ok(_) => (STATUS_OK, None),
        Err(_) => (
            STATUS_UNAUTHORIZED,
            Some(
                String::from_str(
                    "Authentication Failure. Check your credentials or try again later.",
                ),
            ),
        ),
    }
}

/// The status that answers a request to send or to read messages: a
/// caller is not told why a request failed.
pub fn message_status<T>(outcome: &Result<T, AppError>) -> (status: u16)
    ensures
        status == (if *outcome is Ok {
            STATUS_OK
        } else {
            STATUS_INTERNAL_SERVER_ERROR
        }),
{
    match outcome {
        Ok(_) => STATUS_OK,
        Err(_) => STATUS_INTERNAL_SERVER_ERROR,
    }
}

} // verus!
