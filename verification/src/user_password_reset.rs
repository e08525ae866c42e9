//! Password-reset tokens: random values, each tied to a user, usable once
//! and only before it expires.
//!
//! `ResetTokenStore` keeps the tokens. To check a token and to use it up is
//! one step of the store, `verify_and_consume`: there is no state in which a
//! token has been found valid and is not yet marked as used.

use crate::auth_errors::AuthServiceError;
use crate::clock::{latest_second, now_seconds};
use crate::entropy::random_token_value;
use crate::text::str_eq;
use vstd::prelude::*;

verus! {

/// The number of seconds a reset token can be used for: one hour.
pub const RESET_TOKEN_TTL_SECONDS: u64 = 3600;

/// The number of characters of a token value that is drawn anew: those of a
/// UUID in its hyphenated form.
pub const TOKEN_VALUE_LENGTH: usize = 36;

/// A password-reset token as it is stored. Times are seconds since the start
/// of 1970.
#[derive(Debug)]
pub struct PasswordResetToken {
    pub id: i32,
    pub user_id: i32,
    pub token: String,
    pub created_at: u64,
    pub expires_at: u64,
    pub consumed: bool,
}

/// A stored password-reset token as plain values.
pub struct ResetTokenView {
    pub id: i32,
    pub user_id: i32,
    pub token: Seq<char>,
    pub created_at: u64,
    pub expires_at: u64,
    pub consumed: bool,
}

impl View for PasswordResetToken {
    type V = ResetTokenView;

    open spec fn view(&self) -> ResetTokenView {
        ResetTokenView {
            id: self.id,
            user_id: self.user_id,
            token: self.token@,
            created_at: self.created_at,
            expires_at: self.expires_at,
            consumed: self.consumed,
        }
    }
}

impl PasswordResetToken {
    /// A copy of this token.
    pub fn duplicate(&self) -> (copy: PasswordResetToken)
        ensures
            copy@ == self@,
    {
        PasswordResetToken {
            id: self.id,
            user_id: self.user_id,
            token: self.token.clone(),
            created_at: self.created_at,
            expires_at: self.expires_at,
            consumed: self.consumed,
        }
    }

    /// Tells whether this token can still be used at the second `now`: it
    /// has not been used, and `now` is before the second it expires at.
    pub fn is_usable_at(&self, now: u64) -> (usable: bool)
        ensures
            usable == (!self.consumed && now < self.expires_at),
    {
        !self.consumed && now < self.expires_at
    }
}

/// `row` holds the value `token` and can be used at the second `now`.
pub open spec fn usable(row: ResetTokenView, token: Seq<char>, now: u64) -> bool {
    row.token == token && !row.consumed && now < row.expires_at
}

/// Some row holds the value `token` and can be used at the second `now`.
pub open spec fn holds_usable(rows: Seq<ResetTokenView>, token: Seq<char>, now: u64) -> bool {
    exists|i: int| 0 <= i < rows.len() && usable(#[trigger] rows[i], token, now)
}

/// Some row holds the value `token`.
pub open spec fn holds_value(rows: Seq<ResetTokenView>, token: Seq<char>) -> bool {
    exists|i: int| 0 <= i < rows.len() && (#[trigger] rows[i]).token == token
}

/// Some row holds a value as long as the values that are drawn anew, so that
/// a value drawn anew could be one that is held.
pub open spec fn may_hold_drawn(rows: Seq<ResetTokenView>) -> bool {
    exists|i: int| 0 <= i < rows.len() && (#[trigger] rows[i]).token.len() == TOKEN_VALUE_LENGTH
}

/// No value is held by two rows.
pub open spec fn values_unique(rows: Seq<ResetTokenView>) -> bool {
    forall|i: int, j: int|
        0 <= i < rows.len() && 0 <= j < rows.len() && i != j ==> (#[trigger] rows[i]).token != (
        #[trigger] rows[j]).token
}

/// The ids rise along the rows, and none is above `last_id`.
pub open spec fn ids_rise(rows: Seq<ResetTokenView>, last_id: i32) -> bool {
    &&& forall|i: int, j: int|
        0 <= i < j < rows.len() ==> (#[trigger] rows[i]).id < (#[trigger] rows[j]).id
    &&& forall|i: int| 0 <= i < rows.len() ==> (#[trigger] rows[i]).id <= last_id
}

/// The row `row`, marked as used.
pub open spec fn spent(row: ResetTokenView) -> ResetTokenView {
    ResetTokenView { consumed: true, ..row }
}

/// The usable row that holds `token`, where there is one.
pub open spec fn usable_row(rows: Seq<ResetTokenView>, token: Seq<char>, now: u64) -> Option<
    ResetTokenView,
> {
    if holds_usable(rows, token, now) {
        Some(rows[choose|i: int| 0 <= i < rows.len() && usable(#[trigger] rows[i], token, now)])
    } else {
        None
    }
}

/// What using up `token` at the second `now` does to the rows, and whose
/// token it was: the usable row that holds it is marked as used and its user
/// is named; where there is no such row, nothing changes and no user is
/// named.
pub open spec fn consumption(rows: Seq<ResetTokenView>, token: Seq<char>, now: u64) -> (
    Seq<ResetTokenView>,
    Option<i32>,
) {
    if holds_usable(rows, token, now) {
        let i = choose|i: int| 0 <= i < rows.len() && usable(#[trigger] rows[i], token, now);
        (rows.update(i, spent(rows[i])), Some(rows[i].user_id))
    } else {
        (rows, None)
    }
}

/// The rows after a token for `user_id` with the value `token` was added at
/// the second `now` under the id `id`.
pub open spec fn with_token(
    rows: Seq<ResetTokenView>,
    id: i32,
    user_id: i32,
    token: Seq<char>,
    created_at: u64,
    expires_at: u64,
) -> Seq<ResetTokenView> {
    rows.push(ResetTokenView { id, user_id, token, created_at, expires_at, consumed: false })
}

/// `after` is `before` with one more token at its end: one for `user_id`
/// with the value `token`, which no row of `before` holds, made at the
/// second `now` under the id `id`, and usable for `RESET_TOKEN_TTL_SECONDS`
/// from then on.
pub open spec fn issued_at(
    before: Seq<ResetTokenView>,
    after: Seq<ResetTokenView>,
    id: i32,
    user_id: i32,
    token: Seq<char>,
    now: u64,
) -> bool {
    &&& now + RESET_TOKEN_TTL_SECONDS <= u64::MAX
    &&& !holds_value(before, token)
    &&& after == with_token(before, id, user_id, token, now, (now + RESET_TOKEN_TTL_SECONDS) as u64)
}

/// `after` is `before` with one more token at its end, made as `issued_at`
/// says at some second that the clock can read.
pub open spec fn issued_now(
    before: Seq<ResetTokenView>,
    after: Seq<ResetTokenView>,
    id: i32,
    user_id: i32,
    token: Seq<char>,
) -> bool {
    exists|now: u64|
        now <= latest_second() && #[trigger] issued_at(before, after, id, user_id, token, now)
}

/// The rows without the one that holds the value `token`; all of them where
/// none does.
pub open spec fn without_value(rows: Seq<ResetTokenView>, token: Seq<char>) -> Seq<ResetTokenView> {
    if holds_value(rows, token) {
        rows.remove(choose|i: int| 0 <= i < rows.len() && (#[trigger] rows[i]).token == token)
    } else {
        rows
    }
}

/// The id of the last row; 0 where there is no row.
pub open spec fn last_id_of(rows: Seq<ResetTokenView>) -> i32 {
    if rows.len() == 0 {
        0
    } else {
        rows.last().id
    }
}

/// What holds of the rows of every store: no value is held by two rows, and
/// the ids rise along the rows up to the id that was given out last.
pub open spec fn well_formed_rows(rows: Seq<ResetTokenView>, last_id: i32) -> bool {
    &&& values_unique(rows)
    &&& ids_rise(rows, last_id)
}

/// The password-reset tokens that have been issued and not deleted.
pub struct ResetTokenStore {
    tokens: Vec<PasswordResetToken>,
    last_id: i32,
}

impl ResetTokenStore {
    /// What holds of every store: no value is held by two of its tokens,
    /// and the ids rise up to the id that was given out last.
    pub open spec fn wf(&self) -> bool {
        well_formed_rows(self.rows(), self.last_id())
    }

    /// The stored tokens as plain values, oldest first.
    pub closed spec fn rows(&self) -> Seq<ResetTokenView> {
        self.tokens@.map_values(|t: PasswordResetToken| t@)
    }

    /// The id that was given out last; 0 where none was.
    pub closed spec fn last_id(&self) -> i32 {
        self.last_id
    }

    /// A store without tokens.
    pub fn new() -> (store: ResetTokenStore)
        ensures
            store.wf(),
            store.rows() == Seq::<ResetTokenView>::empty(),
            store.last_id() == 0,
    {
        ResetTokenStore { tokens: Vec::new(), last_id: 0 }
    }

    /// The store that holds `tokens` in their order, with the id of the last
    /// of them as the id that was given out last. None where two of them
    /// hold the same value, or the ids do not rise.
    pub fn from_tokens(tokens: Vec<PasswordResetToken>) -> (restored: Option<ResetTokenStore>)
        ensures
            restored is Some <==> well_formed_rows(
                tokens@.map_values(|t: PasswordResetToken| t@),
                last_id_of(tokens@.map_values(|t: PasswordResetToken| t@)),
            ),
            restored matches Some(store) ==> {
                &&& store.wf()
                &&& store.rows() == tokens@.map_values(|t: PasswordResetToken| t@)
                &&& store.last_id() == last_id_of(store.rows())
            },
    {
        let ghost rows = tokens@.map_values(|t: PasswordResetToken| t@);
        let mut i: usize = 0;
        while i < tokens.len()
            invariant
                i <= tokens.len(),
                rows == tokens@.map_values(|t: PasswordResetToken| t@),
                forall|a: int, b: int|
                    0 <= a < i && 0 <= b < i && a != b ==> (#[trigger] rows[a]).token != (
                    #[trigger] rows[b]).token,
                forall|a: int, b: int|
                    0 <= a < b < i ==> (#[trigger] rows[a]).id < (#[trigger] rows[b]).id,
            decreases tokens.len() - i,
        {
            if i > 0 && tokens[i - 1].id >= tokens[i].id {
                assert(!(rows[i - 1].id < rows[i as int].id));
                return None;
            }
            let mut j: usize = 0;
            while j < i
                invariant
                    j <= i < tokens.len(),
                    rows == tokens@.map_values(|t: PasswordResetToken| t@),
                    forall|b: int| 0 <= b < j ==> (#[trigger] rows[b]).token != rows[i as int].token,
                decreases i - j,
            {
                if str_eq(tokens[j].token.as_str(), tokens[i].token.as_str()) {
                    assert(rows[j as int].token == rows[i as int].token);
                    return None;
                }
                j = j + 1;
            }
            proof {
                assert forall|a: int, b: int| 0 <= a < b < i + 1 implies (#[trigger] rows[a]).id < (
                #[trigger] rows[b]).id by {
                    if b == i && a < i - 1 {
                        assert(rows[a].id < rows[i - 1].id);
                    }
                }
            }
            i = i + 1;
        }
        let last_id = if tokens.len() == 0 {
            0
        } else {
            tokens[tokens.len() - 1].id
        };
        proof {
            assert forall|a: int| 0 <= a < rows.len() implies (#[trigger] rows[a]).id <= last_id by {
                if a < rows.len() - 1 {
                    assert(rows[a].id < rows[rows.len() - 1].id);
                }
            }
        }
        Some(ResetTokenStore { tokens, last_id })
    }

    /// The number of stored tokens.
    pub fn len(&self) -> (n: usize)
        ensures
            n == self.rows().len(),
    {
        self.tokens.len()
    }

    /// The place of the token with the value `token`, where one is stored.
    fn position(&self, token: &str) -> (place: Option<usize>)
        ensures
            match place {
                Some(i) => i < self.rows().len() && self.rows()[i as int].token == token@,
                None => !holds_value(self.rows(), token@),
            },
    {
        let mut i: usize = 0;
        while i < self.tokens.len()
            invariant
                i <= self.tokens.len(),
                forall|j: int| 0 <= j < i ==> (#[trigger] self.rows()[j]).token != token@,
            decreases self.tokens.len() - i,
        {
            if str_eq(self.tokens[i].token.as_str(), token) {
                return Some(i);
            }
            i = i + 1;
        }
        None
    }

    /// Adds a token that has not been used. `DatabaseError`, and no change,
    /// where the value is already held by a token or the ids have run out.
    pub fn insert(&mut self, user_id: i32, token: String, created_at: u64, expires_at: u64) -> (done:
        Result<(), AuthServiceError>)
        requires
            old(self).wf(),
        ensures
            final(self).wf(),
            match done {
                Ok(_) => {
                    &&& !holds_value(old(self).rows(), token@)
                    &&& old(self).last_id() < i32::MAX
                    &&& final(self).last_id() == old(self).last_id() + 1
                    &&& final(self).rows() == with_token(
                        old(self).rows(),
                        final(self).last_id(),
                        user_id,
                        token@,
                        created_at,
                        expires_at,
                    )
                },
                Err(e) => {
                    &&& e == AuthServiceError::DatabaseError
                    &&& holds_value(old(self).rows(), token@) || old(self).last_id() == i32::MAX
                    &&& final(self).rows() == old(self).rows()
                    &&& final(self).last_id() == old(self).last_id()
                },
            },
    {
        if self.last_id == i32::MAX {
            return Err(AuthServiceError::DatabaseError);
        }
        if self.position(token.as_str()).is_some() {
            return Err(AuthServiceError::DatabaseError);
        }
        let ghost before = self.rows();
        let id = self.last_id + 1;
        let row = PasswordResetToken { id, user_id, token, created_at, expires_at, consumed: false };
        self.tokens.push(row);
        self.last_id = id;
        proof {
            let after = self.rows();
            assert(after == before.push(row@));
            assert forall|i: int, j: int|
                0 <= i < after.len() && 0 <= j < after.len() && i != j implies (#[trigger] after[i]).token
                != (#[trigger] after[j]).token by {
                if i < before.len() && j < before.len() {
                    assert(before[i].token != before[j].token);
                } else if i < before.len() {
                    assert(before[i].token != token@);
                } else {
                    assert(before[j].token != token@);
                }
            }
            assert forall|i: int, j: int| 0 <= i < j < after.len() implies (#[trigger] after[i]).id < (
            #[trigger] after[j]).id by {
                if j < before.len() {
                    assert(before[i].id < before[j].id);
                } else {
                    assert(before[i].id <= id - 1);
                }
            }
            assert forall|i: int| 0 <= i < after.len() implies (#[trigger] after[i]).id <= id by {
                if i < before.len() {
                    assert(before[i].id <= id - 1);
                }
            }
        }
        Ok(())
    }

    /// The token with the value `token`, if it is stored and can be used at
    /// the second `now`. Nothing changes.
    pub fn find_valid(&self, token: &str, now: u64) -> (found: Option<PasswordResetToken>)
        requires
            self.wf(),
        ensures
            match found {
                Some(row) => usable_row(self.rows(), token@, now) == Some(row@),
                None => usable_row(self.rows(), token@, now) is None,
            },
    {
        match self.position(token) {
            Some(i) => {
                let row = &self.tokens[i];
                proof {
                    lemma_usable_is_at(self.rows(), token@, now, i as int);
                }
                if row.is_usable_at(now) {
                    Some(row.duplicate())
                } else {
                    None
                }
            },
            None => None,
        }
    }

    /// Uses up the token with the value `token`, in one step: where it is
    /// stored and can be used at the second `now`, it is marked as used and
    /// its user is returned. In every other case (no such token, an expired
    /// one, one that was used before) nothing changes and the answer is
    /// `InvalidToken`, with no word on which case it was.
    pub fn verify_and_consume(&mut self, token: &str, now: u64) -> (user: Result<
        i32,
        AuthServiceError,
    >)
        requires
            old(self).wf(),
        ensures
            final(self).wf(),
            final(self).last_id() == old(self).last_id(),
            final(self).rows() == consumption(old(self).rows(), token@, now).0,
            match user {
                Ok(user_id) => consumption(old(self).rows(), token@, now).1 == Some(user_id),
                Err(e) => e == AuthServiceError::InvalidToken && consumption(
                    old(self).rows(),
                    token@,
                    now,
                ).1 is None,
            },
    {
        let ghost before = self.rows();
        match self.position(token) {
            Some(i) => {
                proof {
                    lemma_usable_is_at(before, token@, now, i as int);
                }
                if self.tokens[i].is_usable_at(now) {
                    let user_id = self.tokens[i].user_id;
                    self.tokens[i].consumed = true;
                    proof {
                        let after = self.rows();
                        assert(after == before.update(i as int, spent(before[i as int])));
                        lemma_update_keeps_well_formed(before, self.last_id, i as int);
                    }
                    Ok(user_id)
                } else {
                    Err(AuthServiceError::InvalidToken)
                }
            },
            None => Err(AuthServiceError::InvalidToken),
        }
    }

    /// Uses up the token with the value `token` as `verify_and_consume`
    /// does, and tells whether it could be used.
    pub fn consume(&mut self, token: &str, now: u64) -> (used: bool)
        requires
            old(self).wf(),
        ensures
            final(self).wf(),
            final(self).last_id() == old(self).last_id(),
            final(self).rows() == consumption(old(self).rows(), token@, now).0,
            used == holds_usable(old(self).rows(), token@, now),
    {
        self.verify_and_consume(token, now).is_ok()
    }

    /// Stores a new token for `user_id` with the value `value`, made at the
    /// second `now` and usable for `RESET_TOKEN_TTL_SECONDS` from then on,
    /// and returns the value. `DatabaseError`, and no change, where the
    /// second it expires at cannot be counted, the value is already held by
    /// a token, or the ids have run out.
    pub fn issue_token_at(&mut self, user_id: i32, value: String, now: u64) -> (issued: Result<
        String,
        AuthServiceError,
    >)
        requires
            old(self).wf(),
        ensures
            final(self).wf(),
            match issued {
                Ok(token) => {
                    &&& token@ == value@
                    &&& now + RESET_TOKEN_TTL_SECONDS <= u64::MAX
                    &&& !holds_value(old(self).rows(), value@)
                    &&& old(self).last_id() < i32::MAX
                    &&& final(self).last_id() == old(self).last_id() + 1
                    &&& final(self).rows() == with_token(
                        old(self).rows(),
                        final(self).last_id(),
                        user_id,
                        value@,
                        now,
                        (now + RESET_TOKEN_TTL_SECONDS) as u64,
                    )
                },
                Err(e) => {
                    &&& e == AuthServiceError::DatabaseError
                    &&& now + RESET_TOKEN_TTL_SECONDS > u64::MAX || holds_value(
                        old(self).rows(),
                        value@,
                    ) || old(self).last_id() == i32::MAX
                    &&& final(self).rows() == old(self).rows()
                    &&& final(self).last_id() == old(self).last_id()
                },
            },
    {
        match now.checked_add(RESET_TOKEN_TTL_SECONDS) {
            Some(expires_at) => {
                let token = value.clone();
                match self.insert(user_id, value, now, expires_at) {
                    Ok(_) => Ok(token),
                    Err(e) => Err(e),
                }
            },
            None => Err(AuthServiceError::DatabaseError),
        }
    }

    /// Stores a new token for `user_id` with a value that is drawn anew,
    /// made at the present time, and returns the value. `DatabaseError`, and
    /// no change, where the value that was drawn is already held by a token
    /// or the ids have run out; so a store with ids left that holds no
    /// value of that length issues the token.
    pub fn issue_token(&mut self, user_id: i32) -> (issued: Result<String, AuthServiceError>)
        requires
            old(self).wf(),
        ensures
            final(self).wf(),
            old(self).last_id() < i32::MAX && !may_hold_drawn(old(self).rows()) ==> issued is Ok,
            match issued {
                Ok(token) => {
                    &&& token@.len() == TOKEN_VALUE_LENGTH
                    &&& final(self).last_id() == old(self).last_id() + 1
                    &&& issued_now(
                        old(self).rows(),
                        final(self).rows(),
                        final(self).last_id(),
                        user_id,
                        token@,
                    )
                },
                Err(e) => {
                    &&& e == AuthServiceError::DatabaseError
                    &&& old(self).last_id() == i32::MAX || may_hold_drawn(old(self).rows())
                    &&& final(self).rows() == old(self).rows()
                    &&& final(self).last_id() == old(self).last_id()
                },
            },
    {
        let now = now_seconds();
        let value = random_token_value();
        let issued = self.issue_token_at(user_id, value, now);
        proof {
            if issued is Ok {
                assert(issued_at(
                    old(self).rows(),
                    self.rows(),
                    self.last_id(),
                    user_id,
                    issued->Ok_0@,
                    now,
                ));
            }
        }
        issued
    }

    /// Removes the token with the value `token`, if it is stored, and tells
    /// whether it was.
    pub fn delete_by_token(&mut self, token: &str) -> (removed: bool)
        requires
            old(self).wf(),
        ensures
            final(self).wf(),
            removed == holds_value(old(self).rows(), token@),
            final(self).last_id() == old(self).last_id(),
            final(self).rows() == without_value(old(self).rows(), token@),
    {
        let ghost before = self.rows();
        match self.position(token) {
            Some(i) => {
                let _ = self.tokens.remove(i);
                proof {
                    assert(self.rows() == before.remove(i as int));
                    lemma_remove_keeps_well_formed(before, self.last_id, i as int);
                    let k = choose|k: int| 0 <= k < before.len() && (#[trigger] before[k]).token
                        == token@;
                    if k != i {
                        assert(before[k].token != before[i as int].token);
                    }
                }
                true
            },
            None => false,
        }
    }

    /// Copies of all stored tokens, oldest first.
    pub fn all(&self) -> (tokens: Vec<PasswordResetToken>)
        ensures
            tokens@.map_values(|t: PasswordResetToken| t@) == self.rows(),
    {
        let mut tokens: Vec<PasswordResetToken> = Vec::new();
        let mut i: usize = 0;
        while i < self.tokens.len()
            invariant
                i <= self.tokens.len(),
                tokens@.len() == i,
                forall|j: int| 0 <= j < i ==> (#[trigger] tokens@[j])@ == self.tokens@[j]@,
            decreases self.tokens.len() - i,
        {
            tokens.push(self.tokens[i].duplicate());
            i = i + 1;
        }
        assert(tokens@.map_values(|t: PasswordResetToken| t@) =~= self.rows());
        tokens
    }
}

impl PasswordResetToken {
    /// Stores a new token for `user_id` in `store`, as
    /// `ResetTokenStore::issue_token` does.
    pub fn create_token(store: &mut ResetTokenStore, user_id: i32) -> (issued: Result<
        String,
        AuthServiceError,
    >)
        requires
            old(store).wf(),
        ensures
            final(store).wf(),
            old(store).last_id() < i32::MAX && !may_hold_drawn(old(store).rows()) ==> issued is Ok,
            match issued {
                Ok(token) => {
                    &&& token@.len() == TOKEN_VALUE_LENGTH
                    &&& final(store).last_id() == old(store).last_id() + 1
                    &&& issued_now(
                        old(store).rows(),
                        final(store).rows(),
                        final(store).last_id(),
                        user_id,
                        token@,
                    )
                },
                Err(e) => {
                    &&& e == AuthServiceError::DatabaseError
                    &&& old(store).last_id() == i32::MAX || may_hold_drawn(old(store).rows())
                    &&& final(store).rows() == old(store).rows()
                    &&& final(store).last_id() == old(store).last_id()
                },
            },
    {
        store.issue_token(user_id)
    }

    /// The token with the value `token`, if `store` holds it and it can be
    /// used at the present time.
    pub fn check_token(store: &ResetTokenStore, token: &str) -> (found: Option<PasswordResetToken>)
        requires
            store.wf(),
        ensures
            exists|now: u64|
                now <= latest_second() && (match found {
                    Some(row) => #[trigger] usable_row(store.rows(), token@, now) == Some(row@),
                    None => usable_row(store.rows(), token@, now) is None,
                }),
    {
        let now = now_seconds();
        let found = store.find_valid(token, now);
        assert(match found {
            Some(row) => usable_row(store.rows(), token@, now) == Some(row@),
            None => usable_row(store.rows(), token@, now) is None,
        });
        found
    }

    /// Removes the token with the value `token` from `store`, as
    /// `ResetTokenStore::delete_by_token` does.
    pub fn delete_by_token(store: &mut ResetTokenStore, token: &str) -> (removed: bool)
        requires
            old(store).wf(),
        ensures
            final(store).wf(),
            removed == holds_value(old(store).rows(), token@),
            final(store).last_id() == old(store).last_id(),
            final(store).rows() == without_value(old(store).rows(), token@),
    {
        store.delete_by_token(token)
    }

    /// Copies of all tokens of `store`, oldest first.
    pub fn all(store: &ResetTokenStore) -> (tokens: Vec<PasswordResetToken>)
        ensures
            tokens@.map_values(|t: PasswordResetToken| t@) == store.rows(),
    {
        store.all()
    }
}

/// Where values are unique, the row at `place` that holds `token` is the
/// only one that can be the usable row for it.
pub proof fn lemma_usable_is_at(rows: Seq<ResetTokenView>, token: Seq<char>, now: u64, place: int)
    requires
        values_unique(rows),
        0 <= place < rows.len(),
        rows[place].token == token,
    ensures
        holds_usable(rows, token, now) == usable(rows[place], token, now),
        usable(rows[place], token, now) ==> usable_row(rows, token, now) == Some(rows[place]),
        usable(rows[place], token, now) ==> consumption(rows, token, now) == (
            rows.update(place, spent(rows[place])),
            Some(rows[place].user_id),
        ),
        !usable(rows[place], token, now) ==> consumption(rows, token, now) == (rows, None::<i32>),
        !usable(rows[place], token, now) ==> usable_row(rows, token, now) is None,
{
    if holds_usable(rows, token, now) {
        let i = choose|i: int| 0 <= i < rows.len() && usable(#[trigger] rows[i], token, now);
        if i != place {
            assert(rows[i].token != rows[place].token);
        }
    }
}

/// Marking a row as used keeps values unique and ids rising.
pub proof fn lemma_update_keeps_well_formed(rows: Seq<ResetTokenView>, last_id: i32, place: int)
    requires
        values_unique(rows),
        ids_rise(rows, last_id),
        0 <= place < rows.len(),
    ensures
        values_unique(rows.update(place, spent(rows[place]))),
        ids_rise(rows.update(place, spent(rows[place])), last_id),
{
    let after = rows.update(place, spent(rows[place]));
    assert forall|i: int, j: int|
        0 <= i < after.len() && 0 <= j < after.len() && i != j implies (#[trigger] after[i]).token != (
    #[trigger] after[j]).token by {
        assert(rows[i].token != rows[j].token);
    }
    assert forall|i: int, j: int| 0 <= i < j < after.len() implies (#[trigger] after[i]).id < (
    #[trigger] after[j]).id by {
        assert(rows[i].id < rows[j].id);
    }
    assert forall|i: int| 0 <= i < after.len() implies (#[trigger] after[i]).id <= last_id by {
        assert(rows[i].id <= last_id);
    }
}

/// Removing a row keeps values unique and ids rising.
pub proof fn lemma_remove_keeps_well_formed(rows: Seq<ResetTokenView>, last_id: i32, place: int)
    requires
        values_unique(rows),
        ids_rise(rows, last_id),
        0 <= place < rows.len(),
    ensures
        values_unique(rows.remove(place)),
        ids_rise(rows.remove(place), last_id),
{
    let after = rows.remove(place);
    let from = |k: int|
        if k < place {
            k
        } else {
            k + 1
        };
    assert forall|i: int, j: int|
        0 <= i < after.len() && 0 <= j < after.len() && i != j implies (#[trigger] after[i]).token != (
    #[trigger] after[j]).token by {
        assert(after[i] == rows[from(i)] && after[j] == rows[from(j)]);
        assert(rows[from(i)].token != rows[from(j)].token);
    }
    assert forall|i: int, j: int| 0 <= i < j < after.len() implies (#[trigger] after[i]).id < (
    #[trigger] after[j]).id by {
        assert(after[i] == rows[from(i)] && after[j] == rows[from(j)]);
        assert(rows[from(i)].id < rows[from(j)].id);
    }
    assert forall|i: int| 0 <= i < after.len() implies (#[trigger] after[i]).id <= last_id by {
        assert(after[i] == rows[from(i)]);
        assert(rows[from(i)].id <= last_id);
    }
}

} // verus!
