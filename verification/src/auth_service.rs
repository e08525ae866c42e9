//! The account flows: registration, login, token validation, and the setting
//! of a new password, directly or by way of a reset token.
//!
//! A flow takes the repositories it works on as arguments and keeps nothing
//! between calls. Each flow does its steps in a fixed order, and a step that
//! fails ends the flow: what was stored before that step stays stored, what
//! comes after it is not attempted.

use crate::auth_dto::{AuthResponse, AuthResponseView, RegisterRequest, UpdatePasswordRequest};
use crate::auth_errors::AuthServiceError;
use crate::auth_jwt::TokenIssuer;
use crate::clock::{latest_second, now_seconds};
use crate::credential_hasher::{
    hash_password, hashable, is_hash_of, verifies, verify_password,
};
use crate::password_validator::{satisfies_policy, validate_password};
use crate::user::{
    first_match, has_email, has_id, has_match, is_first_match, is_match,
    lemma_first_match_is_at, with_password, with_password_of, UserRepositoryImpl, UserView,
};
use crate::user_dto::UserMessageResponse;
use crate::user_password_reset::{
    consumption, issued_now, may_hold_drawn, ResetTokenStore, TOKEN_VALUE_LENGTH,
};
use vstd::prelude::*;

verus! {

/// The account flows.
pub struct AuthService;

/// What a request for a reset token is answered with, whether or not an
/// account has the email address.
pub const RESET_REQUESTED: &'static str =
    "If an account has this email address, a reset token was issued for it";

/// A reset token and the email address it is to be sent to.
#[derive(Debug)]
pub struct ResetDelivery {
    pub email: String,
    pub token: String,
}

/// What a request for a reset token comes to: the answer for the caller, and
/// what is to be sent to the owner of the account.
#[derive(Debug)]
pub struct ResetRequest {
    pub response: UserMessageResponse,
    pub delivery: Option<ResetDelivery>,
}

/// The account that `identifier`, read as a login or as an email address,
/// names and that `password` is accepted for.
pub open spec fn accepted_account(rows: Seq<UserView>, identifier: Seq<char>, password: Seq<char>) -> Option<
    UserView,
> {
    match first_match(rows, identifier, identifier) {
        Some(row) => if verifies(row.password, password) {
            Some(row)
        } else {
            None
        },
        None => None,
    }
}

/// `after` is `before` with one more account at its end, made of what the
/// request holds, under the id `id` and with a hash of the request's
/// password in the place of the password.
pub open spec fn stored_account(
    before: Seq<UserView>,
    after: Seq<UserView>,
    id: i32,
    login: Seq<char>,
    username: Seq<char>,
    email: Seq<char>,
    password: Seq<char>,
) -> bool {
    &&& after.len() == before.len() + 1
    &&& after.drop_last() == before
    &&& after.last().id == id
    &&& after.last().login == login
    &&& after.last().username == username
    &&& after.last().email == email
    &&& is_hash_of(after.last().password, password)
}

/// `after` is `before` with a hash of `password` in the place of the
/// password of each account that has the email address `email`.
pub open spec fn password_replaced(
    before: Seq<UserView>,
    after: Seq<UserView>,
    email: Seq<char>,
    password: Seq<char>,
) -> bool {
    exists|encoded: Seq<char>|
        is_hash_of(encoded, password) && after == #[trigger] with_password(before, email, encoded)
}

/// `after` is `before` with a hash of `password` in the place of the
/// password of the account that has the id `id`.
pub open spec fn password_replaced_of(
    before: Seq<UserView>,
    after: Seq<UserView>,
    id: i32,
    password: Seq<char>,
) -> bool {
    exists|encoded: Seq<char>|
        is_hash_of(encoded, password) && after == #[trigger] with_password_of(before, id, encoded)
}

/// `response` hands out a token of `issuer` for the account `user`, with the
/// text `message`.
pub open spec fn grants(
    response: AuthResponseView,
    issuer: TokenIssuer,
    user: UserView,
    message: Seq<char>,
) -> bool {
    &&& response.success
    &&& response.user == Some(user)
    &&& response.message == Some(message)
    &&& response.token is Some
    &&& issuer.issued_once(user.email, response.token->0)
}

impl AuthService {
    /// Opens an account and hands out a session token for it.
    ///
    /// The steps, in this order: the password is held against the password
    /// policy (`InvalidPassword`); the login and the email address are
    /// looked up (`UserAlreadyExists` where an account has one of them); the
    /// password is hashed (`HashingError`, which takes a password too long
    /// for the hasher); the account is stored with the hash under the next
    /// id (`DatabaseError`, where the ids have run out); a token is issued
    /// for the email address. Nothing is stored where a step fails.
    pub fn register(
        body: RegisterRequest,
        repository: &mut UserRepositoryImpl,
        issuer: &TokenIssuer,
    ) -> (outcome: Result<AuthResponse, AuthServiceError>)
        requires
            old(repository).wf(),
        ensures
            final(repository).wf(),
            !satisfies_policy(body.password@) <==> outcome matches Err(
                AuthServiceError::InvalidPassword,
            ),
            satisfies_policy(body.password@) && has_match(
                old(repository).rows(),
                body.login@,
                body.email@,
            ) <==> outcome matches Err(AuthServiceError::UserAlreadyExists),
            satisfies_policy(body.password@) && hashable(body.password@) && !has_match(
                old(repository).rows(),
                body.login@,
                body.email@,
            ) ==> if old(repository).last_id() < i32::MAX {
                outcome is Ok
            } else {
                outcome matches Err(AuthServiceError::DatabaseError)
            },
            match outcome {
                Ok(response) => {
                    &&& old(repository).last_id() < i32::MAX
                    &&& final(repository).last_id() == old(repository).last_id() + 1
                    &&& stored_account(
                        old(repository).rows(),
                        final(repository).rows(),
                        final(repository).last_id(),
                        body.login@,
                        body.username@,
                        body.email@,
                        body.password@,
                    )
                    &&& grants(
                        response@,
                        *issuer,
                        final(repository).rows().last(),
                        "Registration successful"@,
                    )
                },
                Err(e) => {
                    &&& final(repository).rows() == old(repository).rows()
                    &&& final(repository).last_id() == old(repository).last_id()
                    &&& e == AuthServiceError::InvalidPassword || e
                        == AuthServiceError::UserAlreadyExists || e
                        == AuthServiceError::HashingError || e == AuthServiceError::DatabaseError
                    &&& e == AuthServiceError::HashingError ==> !hashable(body.password@)
                    &&& e == AuthServiceError::DatabaseError ==> old(repository).last_id()
                        == i32::MAX
                },
            },
    {
        if !validate_password(body.password.as_str()) {
            return Err(AuthServiceError::InvalidPassword);
        }
        let ghost before = repository.rows();
        match repository.find_by_login_or_email(body.login.as_str(), body.email.as_str()) {
            Some(_) => {
                return Err(AuthServiceError::UserAlreadyExists);
            },
            None => {},
        }
        let hashed = match hash_password(body.password.as_str()) {
            Ok(hashed) => hashed,
            Err(e) => {
                return Err(e);
            },
        };
        match repository.add_user(
            body.username.as_str(),
            body.login.as_str(),
            body.email.as_str(),
            hashed.as_str(),
        ) {
            Ok(_) => {},
            Err(_) => {
                return Err(AuthServiceError::DatabaseError);
            },
        }
        proof {
            let after = repository.rows();
            assert(after.drop_last() == before);
            assert(is_first_match(after, body.login@, body.email@, after.len() - 1)) by {
                assert forall|j: int| 0 <= j < after.len() - 1 implies !is_match(
                    #[trigger] after[j],
                    body.login@,
                    body.email@,
                ) by {
                    assert(after[j] == before[j]);
                }
            }
            lemma_first_match_is_at(after, body.login@, body.email@, after.len() - 1);
        }
        let user = match repository.find_by_login_or_email(
            body.login.as_str(),
            body.email.as_str(),
        ) {
            Some(user) => user,
            None => {
                return Err(AuthServiceError::Unknown);
            },
        };
        match issuer.issue(user.email.as_str()) {
            Ok(token) => Ok(AuthResponse::granted(token, user, "Registration successful")),
            Err(_) => Err(AuthServiceError::Unknown),
        }
    }

    /// Hands out a session token for the account that `email`, read as a
    /// login or as an email address, names, if `password` is accepted for
    /// it.
    ///
    /// `InvalidCredentials` where no account is named or the password is
    /// not accepted, with no word on which of the two it was. Where the
    /// password is accepted, the token is handed out.
    pub fn login(
        email: &str,
        password: &str,
        repository: &UserRepositoryImpl,
        issuer: &TokenIssuer,
    ) -> (outcome: Result<AuthResponse, AuthServiceError>)
        ensures
            accepted_account(repository.rows(), email@, password@) is None <==> outcome matches Err(
                AuthServiceError::InvalidCredentials,
            ),
            accepted_account(repository.rows(), email@, password@) is Some <==> outcome is Ok,
            match outcome {
                Ok(response) => accepted_account(repository.rows(), email@, password@) matches Some(
                    user,
                ) && grants(response@, *issuer, user, "Login successful"@),
                Err(e) => e == AuthServiceError::InvalidCredentials,
            },
    {
        let user = match repository.find_by_login_or_email(email, email) {
            Some(user) => user,
            None => {
                return Err(AuthServiceError::InvalidCredentials);
            },
        };
        if !verify_password(user.password.as_str(), password) {
            return Err(AuthServiceError::InvalidCredentials);
        }
        match issuer.issue(user.email.as_str()) {
            Ok(token) => Ok(AuthResponse::granted(token, user, "Login successful")),
            Err(_) => Err(AuthServiceError::Unknown),
        }
    }

    /// Sets a new password for the account that the email address of the
    /// request, read as a login or as an email address, names.
    ///
    /// The steps, in this order: the account is looked up (`UserNotFound`);
    /// the new password is held against the password policy
    /// (`InvalidPassword`); it is hashed (`HashingError`, which takes a
    /// password too long for the hasher); the hash is stored. Nothing
    /// changes where a step fails.
    pub fn update_password(body: UpdatePasswordRequest, repository: &mut UserRepositoryImpl) -> (outcome:
        Result<(), AuthServiceError>)
        requires
            old(repository).wf(),
        ensures
            final(repository).wf(),
            final(repository).last_id() == old(repository).last_id(),
            !has_match(old(repository).rows(), body.email@, body.email@) <==> outcome == Err::<
                (),
                AuthServiceError,
            >(AuthServiceError::UserNotFound),
            has_match(old(repository).rows(), body.email@, body.email@) && !satisfies_policy(
                body.new_password@,
            ) <==> outcome == Err::<(), AuthServiceError>(AuthServiceError::InvalidPassword),
            has_match(old(repository).rows(), body.email@, body.email@) && satisfies_policy(
                body.new_password@,
            ) && hashable(body.new_password@) ==> outcome is Ok,
            match outcome {
                Ok(_) => first_match(old(repository).rows(), body.email@, body.email@) matches Some(
                    user,
                ) && password_replaced(
                    old(repository).rows(),
                    final(repository).rows(),
                    user.email,
                    body.new_password@,
                ),
                Err(e) => {
                    &&& final(repository).rows() == old(repository).rows()
                    &&& e == AuthServiceError::UserNotFound || e
                        == AuthServiceError::InvalidPassword || e == AuthServiceError::HashingError
                    &&& e == AuthServiceError::HashingError ==> !hashable(body.new_password@)
                },
            },
    {
        let user = match repository.find_by_login_or_email(
            body.email.as_str(),
            body.email.as_str(),
        ) {
            Some(user) => user,
            None => {
                return Err(AuthServiceError::UserNotFound);
            },
        };
        if !validate_password(body.new_password.as_str()) {
            return Err(AuthServiceError::InvalidPassword);
        }
        let hashed = match hash_password(body.new_password.as_str()) {
            Ok(hashed) => hashed,
            Err(e) => {
                return Err(e);
            },
        };
        let ghost before = repository.rows();
        let _ = repository.update_password(user.email.as_str(), hashed.as_str());
        assert(repository.rows() == with_password(before, user@.email, hashed@));
        Ok(())
    }

    /// The subject of `token` if it is a token of the issuer that has not
    /// expired at the present time; `InvalidToken` in every other case.
    pub fn validate_token(token: &str, issuer: &TokenIssuer) -> (subject: Result<
        String,
        AuthServiceError,
    >)
        ensures
            exists|now: u64|
                now <= latest_second() && crate::auth_jwt::text_of(subject)
                    == #[trigger] issuer.validation(token@, now),
    {
        issuer.validate(token)
    }

    /// Issues a reset token for the account with the email address `email`,
    /// to be sent to that address. The answer for the caller is the same
    /// whether or not there is such an account and whether or not the token
    /// could be stored. Where there is such an account, the token is kept
    /// back only where the store refuses it: the value that was drawn is
    /// already held, or the ids have run out.
    pub fn forgot_password(email: &str, repository: &UserRepositoryImpl, tokens: &mut ResetTokenStore) -> (request:
        ResetRequest)
        requires
            old(tokens).wf(),
        ensures
            final(tokens).wf(),
            request.response.message@ == RESET_REQUESTED@,
            !has_email(repository.rows(), email@) ==> request.delivery is None,
            match request.delivery {
                Some(delivery) => {
                    &&& delivery.email@ == email@
                    &&& delivery.token@.len() == TOKEN_VALUE_LENGTH
                    &&& final(tokens).last_id() == old(tokens).last_id() + 1
                    &&& exists|user: UserView|
                        {
                            &&& repository.rows().contains(user)
                            &&& user.email == email@
                            &&& #[trigger] issued_now(
                                old(tokens).rows(),
                                final(tokens).rows(),
                                final(tokens).last_id(),
                                user.id,
                                delivery.token@,
                            )
                        }
                },
                None => {
                    &&& final(tokens).rows() == old(tokens).rows()
                    &&& final(tokens).last_id() == old(tokens).last_id()
                    &&& !has_email(repository.rows(), email@) || old(tokens).last_id() == i32::MAX
                        || may_hold_drawn(old(tokens).rows())
                },
            },
    {
        let response = UserMessageResponse::new(RESET_REQUESTED);
        let user = match repository.find_by_email(email) {
            Some(user) => user,
            None => {
                return ResetRequest { response, delivery: None };
            },
        };
        match tokens.issue_token(user.id) {
            Ok(token) => {
                proof {
                    assert(repository.rows().contains(user@) && user@.email == email@ && issued_now(
                        old(tokens).rows(),
                        tokens.rows(),
                        tokens.last_id(),
                        user@.id,
                        token@,
                    ));
                }
                ResetRequest {
                    response,
                    delivery: Some(ResetDelivery { email: user.email, token }),
                }
            },
            Err(_) => ResetRequest { response, delivery: None },
        }
    }

    /// Sets a new password for the account that the reset token `token` was
    /// issued for, at the second `now`.
    ///
    /// The steps, in this order: the token is checked and used up in one
    /// step (`InvalidToken`, whatever is wrong with it); the new password is
    /// held against the password policy (`InvalidPassword`); it is hashed
    /// (`HashingError`, which takes a password too long for the hasher); the
    /// hash is stored (`UserNotFound` where the account is gone). A token that was accepted stays used, whatever
    /// happens in the later steps.
    pub fn reset_password_at(
        token: &str,
        new_password: &str,
        repository: &mut UserRepositoryImpl,
        tokens: &mut ResetTokenStore,
        now: u64,
    ) -> (outcome: Result<(), AuthServiceError>)
        requires
            old(repository).wf(),
            old(tokens).wf(),
        ensures
            final(repository).wf(),
            final(tokens).wf(),
            final(repository).last_id() == old(repository).last_id(),
            final(tokens).last_id() == old(tokens).last_id(),
            final(tokens).rows() == consumption(old(tokens).rows(), token@, now).0,
            consumption(old(tokens).rows(), token@, now).1 is None <==> outcome == Err::<
                (),
                AuthServiceError,
            >(AuthServiceError::InvalidToken),
            consumption(old(tokens).rows(), token@, now).1 is Some && !satisfies_policy(
                new_password@,
            ) <==> outcome == Err::<(), AuthServiceError>(AuthServiceError::InvalidPassword),
            consumption(old(tokens).rows(), token@, now).1 matches Some(user_id) ==> (
            satisfies_policy(new_password@) && hashable(new_password@) ==> if has_id(
                old(repository).rows(),
                user_id,
            ) {
                outcome is Ok
            } else {
                outcome == Err::<(), AuthServiceError>(AuthServiceError::UserNotFound)
            }),
            match outcome {
                Ok(_) => consumption(old(tokens).rows(), token@, now).1 matches Some(user_id)
                    && has_id(old(repository).rows(), user_id) && password_replaced_of(
                    old(repository).rows(),
                    final(repository).rows(),
                    user_id,
                    new_password@,
                ),
                Err(e) => {
                    &&& final(repository).rows() == old(repository).rows()
                    &&& e == AuthServiceError::InvalidToken || e
                        == AuthServiceError::InvalidPassword || e == AuthServiceError::HashingError
                        || e == AuthServiceError::UserNotFound
                    &&& e == AuthServiceError::HashingError ==> !hashable(new_password@)
                    &&& e == AuthServiceError::UserNotFound ==> (consumption(
                        old(tokens).rows(),
                        token@,
                        now,
                    ).1 matches Some(user_id) && !has_id(old(repository).rows(), user_id))
                },
            },
    {
        let user_id = match tokens.verify_and_consume(token, now) {
            Ok(user_id) => user_id,
            Err(e) => {
                return Err(e);
            },
        };
        if !validate_password(new_password) {
            return Err(AuthServiceError::InvalidPassword);
        }
        let hashed = match hash_password(new_password) {
            Ok(hashed) => hashed,
            Err(e) => {
                return Err(e);
            },
        };
        let ghost before = repository.rows();
        if repository.update_password_by_id(user_id, hashed.as_str()) {
            assert(repository.rows() == with_password_of(before, user_id, hashed@));
            Ok(())
        } else {
            proof {
                let unchanged = with_password_of(before, user_id, hashed@);
                assert forall|k: int| 0 <= k < before.len() implies before[k] == unchanged[k] by {
                    assert(before[k].id != user_id);
                }
                assert(before == unchanged);
            }
            Err(AuthServiceError::UserNotFound)
        }
    }

    /// Sets a new password for the account that the reset token `token` was
    /// issued for, at the present time, as `reset_password_at` does.
    pub fn reset_password(
        token: &str,
        new_password: &str,
        repository: &mut UserRepositoryImpl,
        tokens: &mut ResetTokenStore,
    ) -> (outcome: Result<(), AuthServiceError>)
        requires
            old(repository).wf(),
            old(tokens).wf(),
        ensures
            final(repository).wf(),
            final(tokens).wf(),
            exists|now: u64|
                {
                    &&& now <= latest_second()
                    &&& final(tokens).rows() == #[trigger] consumption(
                        old(tokens).rows(),
                        token@,
                        now,
                    ).0
                    &&& consumption(old(tokens).rows(), token@, now).1 is None <==> outcome == Err::<
                        (),
                        AuthServiceError,
                    >(AuthServiceError::InvalidToken)
                    &&& consumption(old(tokens).rows(), token@, now).1 is Some && !satisfies_policy(
                        new_password@,
                    ) <==> outcome == Err::<(), AuthServiceError>(
                        AuthServiceError::InvalidPassword,
                    )
                    &&& outcome is Ok ==> (consumption(old(tokens).rows(), token@, now).1 matches Some(
                        user_id,
                    ) && has_id(old(repository).rows(), user_id) && password_replaced_of(
                        old(repository).rows(),
                        final(repository).rows(),
                        user_id,
                        new_password@,
                    ))
                    &&& outcome == Err::<(), AuthServiceError>(AuthServiceError::UserNotFound) ==> (
                    consumption(old(tokens).rows(), token@, now).1 matches Some(user_id) && !has_id(
                        old(repository).rows(),
                        user_id,
                    ))
                    &&& consumption(old(tokens).rows(), token@, now).1 matches Some(user_id) ==> (
                    satisfies_policy(new_password@) && hashable(new_password@) ==> if has_id(
                        old(repository).rows(),
                        user_id,
                    ) {
                        outcome is Ok
                    } else {
                        outcome == Err::<(), AuthServiceError>(AuthServiceError::UserNotFound)
                    })
                },
            final(repository).last_id() == old(repository).last_id(),
            final(tokens).last_id() == old(tokens).last_id(),
            outcome matches Err(e) ==> {
                &&& final(repository).rows() == old(repository).rows()
                &&& e == AuthServiceError::InvalidToken || e == AuthServiceError::InvalidPassword
                    || e == AuthServiceError::HashingError || e == AuthServiceError::UserNotFound
                &&& e == AuthServiceError::HashingError ==> !hashable(new_password@)
            },
    {
        let now = now_seconds();
        let outcome = AuthService::reset_password_at(token, new_password, repository, tokens, now);
        proof {
            assert(tokens.rows() == consumption(old(tokens).rows(), token@, now).0);
        }
        outcome
    }
}

} // verus!
