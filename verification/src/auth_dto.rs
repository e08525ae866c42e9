//! What the account flows take in and hand out.

use crate::user::{User, UserView};
use vstd::prelude::*;

verus! {

/// A request to log in. `email` may hold the login or the email address of
/// the account.
#[derive(Debug)]
pub struct LoginRequest {
    pub email: String,
    pub password: String,
}

/// The answer to a login as it is shown to the caller.
#[derive(Debug)]
pub struct LoginResponse {
    pub success: bool,
    pub token: Option<String>,
    pub message: Option<String>,
}

/// A request to open an account.
#[derive(Debug)]
pub struct RegisterRequest {
    pub login: String,
    pub username: String,
    pub email: String,
    pub password: String,
}

/// A request to set a new password for the account with an email address.
#[derive(Debug)]
pub struct UpdatePasswordRequest {
    pub email: String,
    pub new_password: String,
}

/// A request to remove the account with a login.
#[derive(Debug)]
pub struct DeleteUserRequest {
    pub login: String,
}

/// The answer to a registration or a login: a session token and the
/// account it was issued for.
#[derive(Debug)]
pub struct AuthResponse {
    pub success: bool,
    pub token: Option<String>,
    pub user: Option<User>,
    pub message: Option<String>,
}

/// An error as it is shown to the caller.
#[derive(Debug)]
pub struct AuthErrorResponse {
    pub error: String,
}

/// The characters of a string that may be absent.
pub open spec fn text_of_option(s: Option<String>) -> Option<Seq<char>> {
    match s {
        Some(s) => Some(s@),
        None => None,
    }
}

/// The answer to a registration or a login as plain values.
pub struct AuthResponseView {
    pub success: bool,
    pub token: Option<Seq<char>>,
    pub user: Option<UserView>,
    pub message: Option<Seq<char>>,
}

impl View for AuthResponse {
    type V = AuthResponseView;

    open spec fn view(&self) -> AuthResponseView {
        AuthResponseView {
            success: self.success,
            token: text_of_option(self.token),
            user: match self.user {
                Some(u) => Some(u@),
                None => None,
            },
            message: text_of_option(self.message),
        }
    }
}

impl AuthResponse {
    /// The answer that hands out `token` for `user`, with the text
    /// `message`.
    pub fn granted(token: String, user: User, message: &str) -> (response: AuthResponse)
        ensures
            response@ == (AuthResponseView {
                success: true,
                token: Some(token@),
                user: Some(user@),
                message: Some(message@),
            }),
    {
        AuthResponse {
            success: true,
            token: Some(token),
            user: Some(user),
            message: Some(message.to_owned()),
        }
    }

    /// The same answer without the account, as a login is answered.
    pub fn to_login_response(self) -> (response: LoginResponse)
        ensures
            response.success == self.success,
            text_of_option(response.token) == self@.token,
            text_of_option(response.message) == self@.message,
    {
        LoginResponse { success: self.success, token: self.token, message: self.message }
    }
}

impl AuthErrorResponse {
    /// An error with the text `error`.
    pub fn new(error: &str) -> (response: AuthErrorResponse)
        ensures
            response.error@ == error@,
    {
        AuthErrorResponse { error: error.to_owned() }
    }
}

} // verus!
