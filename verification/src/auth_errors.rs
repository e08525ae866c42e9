//! The errors of the account flows, and the kind each one belongs to.

use vstd::prelude::*;

verus! {

/// The five kinds of failure that callers are told apart by.
#[derive(Clone, Copy, Debug, PartialEq, Eq, Structural)]
pub enum ErrorKind {
    /// The request itself is not acceptable.
    Validation,
    /// The request collides with what is stored.
    Conflict,
    /// What the request names does not exist.
    NotFound,
    /// The caller did not prove who they are.
    Auth,
    /// The store or the hasher failed.
    Infrastructure,
}

/// What can go wrong in registration, login, token validation and the
/// password flows.
#[derive(Clone, Copy, Debug, PartialEq, Eq, Structural)]
pub enum AuthServiceError {
    HashingError,
    DatabaseError,
    InvalidEmail,
    InvalidPassword,
    InvalidCredentials,
    UserNotFound,
    UserAlreadyExists,
    Unknown,
    InvalidToken,
}

/// What can go wrong in the user repository.
#[derive(Clone, Copy, Debug, PartialEq, Eq, Structural)]
pub enum UserError {
    NotFound,
    AlreadyExists,
    DatabaseError,
    HashingError,
    InvalidPassword,
    Unknown,
    InvalidEmail,
    InvalidLogin,
    InvalidUsername,
}

/// What can go wrong in the user service.
#[derive(Clone, Copy, Debug, PartialEq, Eq, Structural)]
pub enum UserServiceError {
    HashingError,
    DatabaseError,
    InvalidPassword,
}

impl AuthServiceError {
    /// The kind this error belongs to.
    pub open spec fn kind_spec(self) -> ErrorKind {
        match self {
            AuthServiceError::InvalidEmail | AuthServiceError::InvalidPassword => ErrorKind::Validation,
            AuthServiceError::UserAlreadyExists => ErrorKind::Conflict,
            AuthServiceError::UserNotFound => ErrorKind::NotFound,
            AuthServiceError::InvalidCredentials | AuthServiceError::InvalidToken => ErrorKind::Auth,
            AuthServiceError::HashingError
            | AuthServiceError::DatabaseError
            | AuthServiceError::Unknown => ErrorKind::Infrastructure,
        }
    }

    /// The kind this error belongs to.
    pub fn kind(&self) -> (kind: ErrorKind)
        ensures
            kind == self.kind_spec(),
    {
        match self {
            AuthServiceError::InvalidEmail | AuthServiceError::InvalidPassword => ErrorKind::Validation,
            AuthServiceError::UserAlreadyExists => ErrorKind::Conflict,
            AuthServiceError::UserNotFound => ErrorKind::NotFound,
            AuthServiceError::InvalidCredentials | AuthServiceError::InvalidToken => ErrorKind::Auth,
            AuthServiceError::HashingError
            | AuthServiceError::DatabaseError
            | AuthServiceError::Unknown => ErrorKind::Infrastructure,
        }
    }

    /// The text shown for this error. It names the failure and gives no
    /// detail of the store or the hasher.
    pub open spec fn message_spec(self) -> Seq<char> {
        match self {
            AuthServiceError::HashingError => "Hashing error"@,
            AuthServiceError::DatabaseError => "Database error"@,
            AuthServiceError::InvalidEmail => "Invalid email"@,
            AuthServiceError::InvalidPassword => "Invalid password"@,
            AuthServiceError::InvalidCredentials => "Invalid credentials"@,
            AuthServiceError::UserNotFound => "User not found"@,
            AuthServiceError::UserAlreadyExists => "User already exists"@,
            AuthServiceError::Unknown => "Unknown error"@,
            AuthServiceError::InvalidToken => "Invalid token"@,
        }
    }

    /// The text shown for this error.
    pub fn message(&self) -> (text: String)
        ensures
            text@ == self.message_spec(),
    {
        match self {
            AuthServiceError::HashingError => String::from_str("Hashing error"),
            AuthServiceError::DatabaseError => String::from_str("Database error"),
            AuthServiceError::InvalidEmail => String::from_str("Invalid email"),
            AuthServiceError::InvalidPassword => String::from_str("Invalid password"),
            AuthServiceError::InvalidCredentials => String::from_str("Invalid credentials"),
            AuthServiceError::UserNotFound => String::from_str("User not found"),
            AuthServiceError::UserAlreadyExists => String::from_str("User already exists"),
            AuthServiceError::Unknown => String::from_str("Unknown error"),
            AuthServiceError::InvalidToken => String::from_str("Invalid token"),
        }
    }
}

impl UserError {
    /// The text shown for this error.
    pub open spec fn message_spec(self) -> Seq<char> {
        match self {
            UserError::NotFound => "User not found"@,
            UserError::AlreadyExists => "User already exists"@,
            UserError::DatabaseError => "Database error"@,
            UserError::HashingError => "Password hashing error"@,
            UserError::InvalidPassword => "Invalid password"@,
            UserError::Unknown => "Unknown error"@,
            UserError::InvalidEmail => "Invalid email"@,
            UserError::InvalidLogin => "Invalid login"@,
            UserError::InvalidUsername => "Invalid username"@,
        }
    }

    /// The text shown for this error.
    pub fn message(&self) -> (text: String)
        ensures
            text@ == self.message_spec(),
    {
        match self {
            UserError::NotFound => String::from_str("User not found"),
            UserError::AlreadyExists => String::from_str("User already exists"),
            UserError::DatabaseError => String::from_str("Database error"),
            UserError::HashingError => String::from_str("Password hashing error"),
            UserError::InvalidPassword => String::from_str("Invalid password"),
            UserError::Unknown => String::from_str("Unknown error"),
            UserError::InvalidEmail => String::from_str("Invalid email"),
            UserError::InvalidLogin => String::from_str("Invalid login"),
            UserError::InvalidUsername => String::from_str("Invalid username"),
        }
    }

    /// The same failure as the account flows name it.
    pub open spec fn to_auth_spec(self) -> AuthServiceError {
        match self {
            UserError::NotFound => AuthServiceError::UserNotFound,
            UserError::AlreadyExists => AuthServiceError::UserAlreadyExists,
            UserError::DatabaseError => AuthServiceError::DatabaseError,
            UserError::HashingError => AuthServiceError::HashingError,
            UserError::InvalidPassword => AuthServiceError::InvalidPassword,
            UserError::InvalidEmail => AuthServiceError::InvalidEmail,
            UserError::Unknown | UserError::InvalidLogin | UserError::InvalidUsername =>
                AuthServiceError::Unknown,
        }
    }

    /// The same failure as the account flows name it.
    pub fn to_auth(&self) -> (e: AuthServiceError)
        ensures
            e == self.to_auth_spec(),
    {
        match self {
            UserError::NotFound => AuthServiceError::UserNotFound,
            UserError::AlreadyExists => AuthServiceError::UserAlreadyExists,
            UserError::DatabaseError => AuthServiceError::DatabaseError,
            UserError::HashingError => AuthServiceError::HashingError,
            UserError::InvalidPassword => AuthServiceError::InvalidPassword,
            UserError::InvalidEmail => AuthServiceError::InvalidEmail,
            UserError::Unknown | UserError::InvalidLogin | UserError::InvalidUsername =>
                AuthServiceError::Unknown,
        }
    }
}

impl UserServiceError {
    /// The text shown for this error.
    pub open spec fn message_spec(self) -> Seq<char> {
        match self {
            UserServiceError::HashingError => "Password hashing error"@,
            UserServiceError::DatabaseError => "Database error"@,
            UserServiceError::InvalidPassword => "Invalid password"@,
        }
    }

    /// The text shown for this error.
    pub fn message(&self) -> (text: String)
        ensures
            text@ == self.message_spec(),
    {
        match self {
            UserServiceError::HashingError => String::from_str("Password hashing error"),
            UserServiceError::DatabaseError => String::from_str("Database error"),
            UserServiceError::InvalidPassword => String::from_str("Invalid password"),
        }
    }
}

} // verus!
