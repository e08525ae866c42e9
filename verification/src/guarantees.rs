//! What holds of the library as a whole: statements that tie several of its
//! functions together, each proved from what those functions promise.

use crate::auth_errors::AuthServiceError;
use crate::auth_jwt::TokenIssuer;
use crate::auth_dto::AuthResponseView;
use crate::auth_service::{accepted_account, grants, stored_account};
use crate::clock::latest_second;
use crate::credential_hasher::{
    embeds_salt, encoding_head, encoding_tail_len, is_hash_of, is_hash_with_salt, verifies,
};
use crate::user::{
    first_match, has_match, is_match, well_formed_rows, UserView,
};
use crate::user_password_reset::{
    consumption, holds_usable, spent, usable, values_unique, ResetTokenView,
};
use vstd::prelude::*;

verus! {

/// A password is accepted for each of its own hashes: what `hash_password`
/// returns for a password, `verify_password` accepts with that password.
pub proof fn hashed_password_verifies(encoded: Seq<char>, password: Seq<char>)
    requires
        is_hash_of(encoded, password),
    ensures
        verifies(encoded, password),
{
}

/// The salt can be read off an encoded hash: two hashes under different
/// salts are different, whatever the passwords.
pub proof fn salts_tell_hashes_apart(
    first: Seq<char>,
    first_salt: Seq<char>,
    second: Seq<char>,
    second_salt: Seq<char>,
)
    requires
        embeds_salt(first, first_salt),
        embeds_salt(second, second_salt),
        first_salt != second_salt,
    ensures
        first != second,
{
    let head = encoding_head();
    let d1 = choose|digest: Seq<char>|
        digest.len() == encoding_tail_len() && #[trigger] (head + first_salt + digest) == first;
    let d2 = choose|digest: Seq<char>|
        digest.len() == encoding_tail_len() && #[trigger] (head + second_salt + digest) == second;
    if first == second {
        assert(first.len() == head.len() + first_salt.len() + 44);
        assert(second.len() == head.len() + second_salt.len() + 44);
        assert(first_salt =~= first.subrange(head.len() as int, first.len() - 44));
        assert(second_salt =~= second.subrange(head.len() as int, second.len() - 44));
    }
}

/// Two hashes of one password under two salts that differ are two
/// different texts, and the password is accepted for both.
pub proof fn two_hashes_of_one_password(
    password: Seq<char>,
    first: Seq<char>,
    first_salt: Seq<char>,
    second: Seq<char>,
    second_salt: Seq<char>,
)
    requires
        is_hash_with_salt(first, password, first_salt),
        is_hash_with_salt(second, password, second_salt),
        first_salt != second_salt,
    ensures
        first != second,
        verifies(first, password),
        verifies(second, password),
{
    salts_tell_hashes_apart(first, first_salt, second, second_salt);
}

/// A token that was issued is valid from the second it was issued at to the
/// second it expires at, both included, and names the subject it was issued
/// for.
pub proof fn issued_token_validates(
    issuer: TokenIssuer,
    subject: Seq<char>,
    issued_at: u64,
    token: Seq<char>,
    now: u64,
)
    requires
        issuer.issued(subject, issued_at, token),
        issued_at <= now <= issued_at + issuer.ttl(),
    ensures
        issuer.validation(token, now) == Ok::<Seq<char>, AuthServiceError>(subject),
{
}

/// A token that was issued is invalid at every second after the one it
/// expires at.
pub proof fn expired_token_is_invalid(
    issuer: TokenIssuer,
    subject: Seq<char>,
    issued_at: u64,
    token: Seq<char>,
    now: u64,
)
    requires
        issuer.issued(subject, issued_at, token),
        now > issued_at + issuer.ttl(),
    ensures
        issuer.validation(token, now) == Err::<Seq<char>, AuthServiceError>(
            AuthServiceError::InvalidToken,
        ),
{
}

/// Validating `token` yields `subject` at each second from `from` to the
/// second a time to live of `issuer` later, both included.
pub open spec fn names_through(
    issuer: TokenIssuer,
    token: Seq<char>,
    subject: Seq<char>,
    from: u64,
) -> bool {
    forall|now: u64|
        from <= now <= from + issuer.ttl() ==> #[trigger] issuer.validation(token, now) == Ok::<
            Seq<char>,
            AuthServiceError,
        >(subject)
}

/// The token that a login or a registration hands out names the account it
/// was handed out for: from a second that the clock can read, and for as
/// long as the issuer lets tokens live, validating it yields the email
/// address of that account.
pub proof fn granted_token_names_the_account(
    response: AuthResponseView,
    issuer: TokenIssuer,
    user: UserView,
    message: Seq<char>,
)
    requires
        grants(response, issuer, user, message),
    ensures
        response.token is Some,
        exists|from: u64|
            from <= latest_second() && #[trigger] names_through(
                issuer,
                response.token->0,
                user.email,
                from,
            ),
{
    let token = response.token->0;
    let from = choose|now: u64|
        now <= latest_second() && #[trigger] issuer.issued(user.email, now, token);
    assert(names_through(issuer, token, user.email, from));
}

/// How many of a run of attempts to use up `token`, one at each of `times`
/// and each on the rows that the one before it left, name a user.
pub open spec fn uses(rows: Seq<ResetTokenView>, token: Seq<char>, times: Seq<u64>) -> nat
    decreases times.len(),
{
    if times.len() == 0 {
        0
    } else {
        let step = consumption(rows, token, times[0]);
        uses(step.0, token, times.drop_first()) + if step.1 is Some {
            1nat
        } else {
            0nat
        }
    }
}

/// Every row that holds `token` is marked as used.
pub open spec fn spent_everywhere(rows: Seq<ResetTokenView>, token: Seq<char>) -> bool {
    forall|i: int| 0 <= i < rows.len() && (#[trigger] rows[i]).token == token ==> rows[i].consumed
}

/// A token that is marked as used is not accepted again, at whatever times
/// it is tried.
pub proof fn used_token_stays_used(rows: Seq<ResetTokenView>, token: Seq<char>, times: Seq<u64>)
    requires
        spent_everywhere(rows, token),
    ensures
        uses(rows, token, times) == 0,
    decreases times.len(),
{
    if times.len() > 0 {
        if holds_usable(rows, token, times[0]) {
            let i = choose|i: int| 0 <= i < rows.len() && usable(#[trigger] rows[i], token, times[0]);
            assert(rows[i].consumed);
        }
        used_token_stays_used(rows, token, times.drop_first());
    }
}

/// Of any number of attempts to use up a reset token that can be used at
/// the first of them, exactly one is accepted, in whatever order and at
/// whatever times the others come.
pub proof fn usable_token_is_used_exactly_once(
    rows: Seq<ResetTokenView>,
    token: Seq<char>,
    times: Seq<u64>,
)
    requires
        values_unique(rows),
        times.len() > 0,
        holds_usable(rows, token, times[0]),
    ensures
        uses(rows, token, times) == 1,
{
    let i = choose|i: int| 0 <= i < rows.len() && usable(#[trigger] rows[i], token, times[0]);
    let next = rows.update(i, spent(rows[i]));
    assert forall|j: int| 0 <= j < next.len() && (#[trigger] next[j]).token == token implies next[j].consumed by {
        if j != i {
            assert(rows[j].token != rows[i].token);
        }
    }
    used_token_stays_used(next, token, times.drop_first());
}

/// Of any number of attempts to use up a reset token, at most one is
/// accepted.
pub proof fn token_is_used_at_most_once(rows: Seq<ResetTokenView>, token: Seq<char>, times: Seq<u64>)
    requires
        values_unique(rows),
    ensures
        uses(rows, token, times) <= 1,
    decreases times.len(),
{
    if times.len() > 0 {
        if holds_usable(rows, token, times[0]) {
            usable_token_is_used_exactly_once(rows, token, times);
        } else {
            token_is_used_at_most_once(rows, token, times.drop_first());
        }
    }
}

/// Once an account is registered, its login and its email address are
/// taken: a registration that names either of them finds an account, and so
/// is refused. Exactly one account has that login, and exactly one that
/// email address: the one that was registered.
pub proof fn registered_identity_is_taken(
    before: Seq<UserView>,
    after: Seq<UserView>,
    last_id: i32,
    login: Seq<char>,
    username: Seq<char>,
    email: Seq<char>,
    password: Seq<char>,
)
    requires
        well_formed_rows(after, last_id),
        stored_account(before, after, last_id, login, username, email, password),
    ensures
        forall|other_login: Seq<char>, other_email: Seq<char>|
            other_login == login || other_email == email ==> #[trigger] has_match(
                after,
                other_login,
                other_email,
            ),
        forall|i: int|
            0 <= i < after.len() && ((#[trigger] after[i]).login == login || after[i].email == email)
                ==> i == after.len() - 1,
{
    let last = after.len() - 1;
    assert forall|other_login: Seq<char>, other_email: Seq<char>|
        other_login == login || other_email == email implies #[trigger] has_match(
        after,
        other_login,
        other_email,
    ) by {
        assert(is_match(after[last], other_login, other_email));
    }
    assert forall|i: int|
        0 <= i < after.len() && ((#[trigger] after[i]).login == login || after[i].email == email)
        implies i == last by {
        if i != last {
            assert(after[i].login != after[last].login);
            assert(after[i].email != after[last].email);
        }
    }
}

/// A login that names no account and a login with a password that is not
/// accepted come to the same: no account is accepted, and `login` answers
/// both with `InvalidCredentials`.
pub proof fn bad_logins_look_alike(rows: Seq<UserView>, identifier: Seq<char>, password: Seq<char>)
    ensures
        !has_match(rows, identifier, identifier) ==> accepted_account(rows, identifier, password)
            is None,
        first_match(rows, identifier, identifier) matches Some(account) && !verifies(
            account.password,
            password,
        ) ==> accepted_account(rows, identifier, password) is None,
{
}

/// A login with the password that the account's hash was made of is
/// accepted for that account.
pub proof fn right_password_is_accepted(
    rows: Seq<UserView>,
    identifier: Seq<char>,
    password: Seq<char>,
    account: UserView,
)
    requires
        first_match(rows, identifier, identifier) == Some(account),
        is_hash_of(account.password, password),
    ensures
        accepted_account(rows, identifier, password) == Some(account),
{
}

} // verus!
