//! What can go wrong, by layer: in the store, in a session lookup, and in a
//! service operation.

use vstd::prelude::*;
use vstd::string::StringExecFns;

verus! {

/// A failure of the store.
#[derive(Debug, Clone, Copy, PartialEq, Eq, Structural)]
pub enum DbError {
    ConnectionFailure,
    MigrationFailure,
    UserCreationFailed,
    UsernameInUse,
    UserFilterFailed,
    UsernameCollisionDetected,
    UserNotFound,
    GenericError,
    PoolError,
    NoPasswordSet,
    /// A stored password hash is not in the encoded format the hasher
    /// reads, or asks for more lanes or memory than the hasher is given.
    MalformedPasswordHash,
}

/// Why a token did not resolve to a user.
#[derive(Debug, Clone, Copy, PartialEq, Eq, Structural)]
pub enum SessionError {
    /// The token was issued, and its time to live has passed.
    SessionExpired,
    /// No session is stored under the token.
    SessionNotFound,
}

/// A failure of a service operation.
#[derive(Debug, Clone, Copy, PartialEq, Eq, Structural)]
pub enum AppError {
    DatabaseError(DbError),
    PoolError,
    LoginFailed,
    TokenInvalid,
}

impl DbError {
    /// The text shown to a person for this error.
    pub open spec fn spec_message(self) -> Seq<char> {
        match self {
            DbError::ConnectionFailure => "Could not connect to database"@,
            DbError::MigrationFailure => "Could not apply database migrations"@,
            DbError::UserCreationFailed => "Could not insert user into database"@,
            DbError::UsernameInUse => "A user with that name already exists"@,
            DbError::UserFilterFailed => "Could not lookup user in database"@,
            DbError::UsernameCollisionDetected => "Found multiple users with same username"@,
            DbError::UserNotFound => "Could not find a user with that name"@,
            DbError::GenericError => "The underlying database engine encountered an error"@,
            DbError::PoolError => "Failed to create connection pool"@,
            DbError::NoPasswordSet => "No password set"@,
            DbError::MalformedPasswordHash => "A stored password hash is malformed"@,
        }
    }

    pub fn message(&self) -> (text: String)
        ensures
            text@ == self.spec_message(),
    {
        match self {
            DbError::ConnectionFailure => String::from_str("Could not connect to database"),
            DbError::MigrationFailure => String::from_str("Could not apply database migrations"),
            DbError::UserCreationFailed => String::from_str("Could not insert user into database"),
            DbError::UsernameInUse => String::from_str("A user with that name already exists"),
            DbError::UserFilterFailed => String::from_str("Could not lookup user in database"),
            DbError::UsernameCollisionDetected => String::from_str(
                "Found multiple users with same username",
            ),
            DbError::UserNotFound => String::from_str("Could not find a user with that name"),
            DbError::GenericError => String::from_str(
                "The underlying database engine encountered an error",
            ),
            DbError::PoolError => String::from_str("Failed to create connection pool"),
            DbError::NoPasswordSet => String::from_str("No password set"),
            DbError::MalformedPasswordHash => String::from_str("A stored password hash is malformed"),
        }
    }
}

impl SessionError {
    /// The text shown to a person for this error.
    pub open spec fn spec_message(self) -> Seq<char> {
        match self {
            SessionError::SessionExpired => "The session has expired"@,
            SessionError::SessionNotFound => "No such session"@,
        }
    }

    pub fn message(&self) -> (text: String)
        ensures
            text@ == self.spec_message(),
    {
        match self {
            SessionError::SessionExpired => String::from_str("The session has expired"),
            SessionError::SessionNotFound => String::from_str("No such session"),
        }
    }
}

impl AppError {
    /// The text shown to a person for this error.
    pub open spec fn spec_message(self) -> Seq<char> {
        match self {
            AppError::DatabaseError(_) => "A database operation caused an error"@,
            AppError::PoolError => "Failed to obtain a connection from the connection pool"@,
            AppError::LoginFailed => "Failed to login user"@,
            AppError::TokenInvalid => "The given token is invalid"@,
        }
    }

    pub fn message(&self) -> (text: String)
        ensures
            text@ == self.spec_message(),
    {
        match self {
            AppError::DatabaseError(_) => String::from_str("A database operation caused an error"),
            AppError::PoolError => String::from_str(
                "Failed to obtain a connection from the connection pool",
            ),
            AppError::LoginFailed => String::from_str("Failed to login user"),
            AppError::TokenInvalid => String::from_str("The given token is invalid"),
        }
    }
}

} // verus!
