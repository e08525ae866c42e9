//! The upkeep of user accounts: adding one, setting its password, removing
//! it, listing all of them. A password is held against the password policy
//! and hashed before it is stored.

use crate::auth_errors::UserServiceError;
use crate::auth_service::{password_replaced, stored_account};
use crate::credential_hasher;
use crate::password_validator::{satisfies_policy, validate_password};
use crate::user::{has_match, with_password, without_login, User, UserRepositoryImpl};
use vstd::prelude::*;

verus! {

/// The upkeep of user accounts.
pub struct UserService;

impl UserService {
    /// The encoded hash of `password` under a salt that is drawn anew at
    /// each call. Every password that the hasher takes is hashed;
    /// `HashingError` can only come for one that is too long for it.
    fn hash_password(password: &str) -> (hashed: Result<String, UserServiceError>)
        ensures
            credential_hasher::hashable(password@) ==> hashed is Ok,
            match hashed {
                Ok(encoded) => credential_hasher::is_hash_of(encoded@, password@),
                Err(e) => e == UserServiceError::HashingError && !credential_hasher::hashable(
                    password@,
                ),
            },
    {
        match credential_hasher::hash_password(password) {
            Ok(encoded) => Ok(encoded),
            Err(_) => Err(UserServiceError::HashingError),
        }
    }

    /// Adds an account with a hash of `password`.
    ///
    /// The steps, in this order: the password is held against the password
    /// policy (`InvalidPassword`); it is hashed (`HashingError`, which takes
    /// a password too long for the hasher); the account is stored under the
    /// next id (`DatabaseError` where an account has the login or the email
    /// address, or the ids have run out). Nothing changes where a step
    /// fails.
    pub fn add_user(
        repository: &mut UserRepositoryImpl,
        username: &str,
        login: &str,
        email: &str,
        password: &str,
    ) -> (outcome: Result<(), UserServiceError>)
        requires
            old(repository).wf(),
        ensures
            final(repository).wf(),
            !satisfies_policy(password@) <==> outcome == Err::<(), UserServiceError>(
                UserServiceError::InvalidPassword,
            ),
            satisfies_policy(password@) && credential_hasher::hashable(password@) ==> if !has_match(
                old(repository).rows(),
                login@,
                email@,
            ) && old(repository).last_id() < i32::MAX {
                outcome is Ok
            } else {
                outcome == Err::<(), UserServiceError>(UserServiceError::DatabaseError)
            },
            match outcome {
                Ok(_) => !has_match(old(repository).rows(), login@, email@) && old(
                    repository,
                ).last_id() < i32::MAX && final(repository).last_id() == old(repository).last_id()
                    + 1 && stored_account(
                    old(repository).rows(),
                    final(repository).rows(),
                    final(repository).last_id(),
                    login@,
                    username@,
                    email@,
                    password@,
                ),
                Err(e) => {
                    &&& final(repository).rows() == old(repository).rows()
                    &&& final(repository).last_id() == old(repository).last_id()
                    &&& e == UserServiceError::InvalidPassword || e
                        == UserServiceError::HashingError || e == UserServiceError::DatabaseError
                    &&& e == UserServiceError::HashingError ==> !credential_hasher::hashable(
                        password@,
                    )
                    &&& e == UserServiceError::DatabaseError ==> has_match(
                        old(repository).rows(),
                        login@,
                        email@,
                    ) || old(repository).last_id() == i32::MAX
                },
            },
    {
        if !validate_password(password) {
            return Err(UserServiceError::InvalidPassword);
        }
        let hashed = match UserService::hash_password(password) {
            Ok(hashed) => hashed,
            Err(e) => {
                return Err(e);
            },
        };
        let ghost before = repository.rows();
        match repository.add_user(username, login, email, hashed.as_str()) {
            Ok(_) => {
                assert(repository.rows().drop_last() == before);
                Ok(())
            },
            Err(_) => Err(UserServiceError::DatabaseError),
        }
    }

    /// Puts a hash of `new_password` in the place of the password of the
    /// account with the email address `email`.
    ///
    /// The steps, in this order: the new password is held against the
    /// password policy (`InvalidPassword`); it is hashed (`HashingError`,
    /// which takes a password too long for the hasher); the hash is stored.
    /// Nothing changes where a step fails, nor where there is no such
    /// account.
    pub fn update_password(repository: &mut UserRepositoryImpl, email: &str, new_password: &str) -> (outcome:
        Result<(), UserServiceError>)
        requires
            old(repository).wf(),
        ensures
            final(repository).wf(),
            final(repository).last_id() == old(repository).last_id(),
            !satisfies_policy(new_password@) <==> outcome == Err::<(), UserServiceError>(
                UserServiceError::InvalidPassword,
            ),
            satisfies_policy(new_password@) && credential_hasher::hashable(new_password@)
                ==> outcome is Ok,
            match outcome {
                Ok(_) => password_replaced(
                    old(repository).rows(),
                    final(repository).rows(),
                    email@,
                    new_password@,
                ),
                Err(e) => {
                    &&& final(repository).rows() == old(repository).rows()
                    &&& e == UserServiceError::InvalidPassword || e
                        == UserServiceError::HashingError
                    &&& e == UserServiceError::HashingError ==> !credential_hasher::hashable(
                        new_password@,
                    )
                },
            },
    {
        if !validate_password(new_password) {
            return Err(UserServiceError::InvalidPassword);
        }
        let hashed = match UserService::hash_password(new_password) {
            Ok(hashed) => hashed,
            Err(e) => {
                return Err(e);
            },
        };
        let ghost before = repository.rows();
        let _ = repository.update_password(email, hashed.as_str());
        assert(repository.rows() == with_password(before, email@, hashed@));
        Ok(())
    }

    /// Removes the account with the login `login`, if there is one.
    pub fn delete_user(repository: &mut UserRepositoryImpl, login: &str) -> (outcome: Result<
        (),
        UserServiceError,
    >)
        requires
            old(repository).wf(),
        ensures
            final(repository).wf(),
            outcome is Ok,
            final(repository).last_id() == old(repository).last_id(),
            final(repository).rows() == without_login(old(repository).rows(), login@),
    {
        let _ = repository.delete_user(login);
        Ok(())
    }

    /// Copies of all accounts, oldest first.
    pub fn all_users(repository: &UserRepositoryImpl) -> (outcome: Result<Vec<User>, UserServiceError>)
        ensures
            outcome matches Ok(users) && users@.map_values(|u: User| u@) == repository.rows(),
    {
        Ok(repository.all())
    }

    /// Tells whether `password` is accepted for the encoded hash `hash`. A
    /// text that is no encoded hash accepts no password.
    pub fn verify_password(hash: &str, password: &str) -> (accepted: bool)
        ensures
            accepted == credential_hasher::verifies(hash@, password@),
    {
        credential_hasher::verify_password(hash, password)
    }
}

} // verus!
