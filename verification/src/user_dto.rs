//! What the user service takes in and hands out. An account is shown
//! without its password.

use crate::user::{User, UserView};
use vstd::prelude::*;

verus! {

/// A request to add an account.
#[derive(Debug)]
pub struct CreateUserRequest {
    pub username: String,
    pub login: String,
    pub email: String,
    pub password: String,
}

/// A request to change some of what an account holds.
#[derive(Debug)]
pub struct UpdateUserRequest {
    pub username: Option<String>,
    pub email: Option<String>,
    pub password: Option<String>,
}

/// An account as it is shown: everything but the password.
#[derive(Debug)]
pub struct UserResponse {
    pub id: i32,
    pub username: String,
    pub login: String,
    pub email: String,
}

/// A list of accounts as it is shown.
#[derive(Debug)]
pub struct UsersResponse {
    pub users: Vec<UserResponse>,
}

/// One account as it is shown.
#[derive(Debug)]
pub struct SingleUserResponse {
    pub user: UserResponse,
}

/// A message about what was done to an account.
#[derive(Debug)]
pub struct UserMessageResponse {
    pub message: String,
}

/// An error about an account as it is shown.
#[derive(Debug)]
pub struct UserErrorResponse {
    pub error: String,
}

/// A shown account as plain values.
pub struct UserResponseView {
    pub id: i32,
    pub username: Seq<char>,
    pub login: Seq<char>,
    pub email: Seq<char>,
}

/// What is shown of an account.
pub open spec fn shown(user: UserView) -> UserResponseView {
    UserResponseView { id: user.id, username: user.username, login: user.login, email: user.email }
}

impl View for UserResponse {
    type V = UserResponseView;

    open spec fn view(&self) -> UserResponseView {
        UserResponseView {
            id: self.id,
            username: self.username@,
            login: self.login@,
            email: self.email@,
        }
    }
}

impl UserResponse {
    /// What is shown of `user`.
    pub fn from_user(user: &User) -> (response: UserResponse)
        ensures
            response@ == shown(user@),
    {
        UserResponse {
            id: user.id,
            username: user.username.clone(),
            login: user.login.clone(),
            email: user.email.clone(),
        }
    }
}

impl UsersResponse {
    /// The accounts as plain values.
    pub open spec fn rows(&self) -> Seq<UserResponseView> {
        self.users@.map_values(|u: UserResponse| u@)
    }

    /// What is shown of each of `users`, in their order.
    pub fn from_users(users: &Vec<User>) -> (response: UsersResponse)
        ensures
            response.rows() == users@.map_values(|u: User| shown(u@)),
    {
        let mut shown_users: Vec<UserResponse> = Vec::new();
        let mut i: usize = 0;
        while i < users.len()
            invariant
                i <= users.len(),
                shown_users@.len() == i,
                forall|j: int| 0 <= j < i ==> (#[trigger] shown_users@[j])@ == shown(users@[j]@),
            decreases users.len() - i,
        {
            shown_users.push(UserResponse::from_user(&users[i]));
            i = i + 1;
        }
        let response = UsersResponse { users: shown_users };
        assert(response.rows() =~= users@.map_values(|u: User| shown(u@)));
        response
    }
}

impl SingleUserResponse {
    /// What is shown of `user`.
    pub fn from_user(user: &User) -> (response: SingleUserResponse)
        ensures
            response.user@ == shown(user@),
    {
        SingleUserResponse { user: UserResponse::from_user(user) }
    }
}

impl UserMessageResponse {
    /// A message with the text `message`.
    pub fn new(message: &str) -> (response: UserMessageResponse)
        ensures
            response.message@ == message@,
    {
        UserMessageResponse { message: message.to_owned() }
    }
}

impl UserErrorResponse {
    /// An error with the text `error`.
    pub fn new(error: &str) -> (response: UserErrorResponse)
        ensures
            response.error@ == error@,
    {
        UserErrorResponse { error: error.to_owned() }
    }
}

} // verus!
