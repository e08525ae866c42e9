//! User accounts and the repository that keeps them.
//!
//! No two accounts of a repository share a login, and no two share an email
//! address. The password of an account is kept as an encoded hash.

use crate::auth_errors::UserError;
use crate::credential_hasher;
use crate::text::str_eq;
use vstd::prelude::*;

verus! {

/// A user account. `password` holds the encoded hash of the password.
#[derive(Debug)]
pub struct User {
    pub id: i32,
    pub login: String,
    pub username: String,
    pub email: String,
    pub password: String,
}

/// A user account as plain values.
pub struct UserView {
    pub id: i32,
    pub login: Seq<char>,
    pub username: Seq<char>,
    pub email: Seq<char>,
    pub password: Seq<char>,
}

impl View for User {
    type V = UserView;

    open spec fn view(&self) -> UserView {
        UserView {
            id: self.id,
            login: self.login@,
            username: self.username@,
            email: self.email@,
            password: self.password@,
        }
    }
}

impl User {
    /// A copy of this account.
    pub fn duplicate(&self) -> (copy: User)
        ensures
            copy@ == self@,
    {
        User {
            id: self.id,
            login: self.login.clone(),
            username: self.username.clone(),
            email: self.email.clone(),
            password: self.password.clone(),
        }
    }

    /// The encoded hash of `password` under a salt that is drawn anew at
    /// each call. Every password that the hasher takes is hashed;
    /// `HashingError` can only come for one that is too long for it.
    pub fn hash_password(password: &str) -> (hashed: Result<String, UserError>)
        ensures
            credential_hasher::hashable(password@) ==> hashed is Ok,
            match hashed {
                Ok(encoded) => credential_hasher::is_hash_of(encoded@, password@),
                Err(e) => e == UserError::HashingError && !credential_hasher::hashable(password@),
            },
    {
        match credential_hasher::hash_password(password) {
            Ok(encoded) => Ok(encoded),
            Err(_) => Err(UserError::HashingError),
        }
    }

    /// Tells whether `password` is accepted for the encoded hash `hash`. A
    /// text that is no encoded hash accepts no password.
    pub fn verify_password(hash: &str, password: &str) -> (accepted: bool)
        ensures
            accepted == credential_hasher::verifies(hash@, password@),
    {
        credential_hasher::verify_password(hash, password)
    }
}

/// `row` has the login `login` or the email address `email`.
pub open spec fn is_match(row: UserView, login: Seq<char>, email: Seq<char>) -> bool {
    row.login == login || row.email == email
}

/// Some row has the login `login` or the email address `email`.
pub open spec fn has_match(rows: Seq<UserView>, login: Seq<char>, email: Seq<char>) -> bool {
    exists|i: int| 0 <= i < rows.len() && is_match(#[trigger] rows[i], login, email)
}

/// `place` is where the first row stands that has the login `login` or the
/// email address `email`.
pub open spec fn is_first_match(rows: Seq<UserView>, login: Seq<char>, email: Seq<char>, place: int) -> bool {
    &&& 0 <= place < rows.len()
    &&& is_match(rows[place], login, email)
    &&& forall|j: int| 0 <= j < place ==> !is_match(#[trigger] rows[j], login, email)
}

/// The first row that has the login `login` or the email address `email`,
/// where there is one.
pub open spec fn first_match(rows: Seq<UserView>, login: Seq<char>, email: Seq<char>) -> Option<
    UserView,
> {
    if has_match(rows, login, email) {
        Some(rows[choose|place: int| is_first_match(rows, login, email, place)])
    } else {
        None
    }
}

/// Some row has the login `login`.
pub open spec fn has_login(rows: Seq<UserView>, login: Seq<char>) -> bool {
    exists|i: int| 0 <= i < rows.len() && (#[trigger] rows[i]).login == login
}

/// Some row has the email address `email`.
pub open spec fn has_email(rows: Seq<UserView>, email: Seq<char>) -> bool {
    exists|i: int| 0 <= i < rows.len() && (#[trigger] rows[i]).email == email
}

/// No login is held by two rows.
pub open spec fn logins_unique(rows: Seq<UserView>) -> bool {
    forall|i: int, j: int|
        0 <= i < rows.len() && 0 <= j < rows.len() && i != j ==> (#[trigger] rows[i]).login != (
        #[trigger] rows[j]).login
}

/// No email address is held by two rows.
pub open spec fn emails_unique(rows: Seq<UserView>) -> bool {
    forall|i: int, j: int|
        0 <= i < rows.len() && 0 <= j < rows.len() && i != j ==> (#[trigger] rows[i]).email != (
        #[trigger] rows[j]).email
}

/// The ids rise along the rows, and none is above `last_id`.
pub open spec fn ids_rise(rows: Seq<UserView>, last_id: i32) -> bool {
    &&& forall|i: int, j: int|
        0 <= i < j < rows.len() ==> (#[trigger] rows[i]).id < (#[trigger] rows[j]).id
    &&& forall|i: int| 0 <= i < rows.len() ==> (#[trigger] rows[i]).id <= last_id
}

/// What holds of the rows of every repository: logins are unique, email
/// addresses are unique, and the ids rise along the rows up to the id that
/// was given out last.
pub open spec fn well_formed_rows(rows: Seq<UserView>, last_id: i32) -> bool {
    &&& logins_unique(rows)
    &&& emails_unique(rows)
    &&& ids_rise(rows, last_id)
}

/// The id of the last row; 0 where there is no row.
pub open spec fn last_id_of(rows: Seq<UserView>) -> i32 {
    if rows.len() == 0 {
        0
    } else {
        rows.last().id
    }
}

/// The rows, with the password `password` in each row that has the email
/// address `email`.
pub open spec fn with_password(rows: Seq<UserView>, email: Seq<char>, password: Seq<char>) -> Seq<
    UserView,
> {
    Seq::new(
        rows.len(),
        |i: int|
            if rows[i].email == email {
                UserView { password, ..rows[i] }
            } else {
                rows[i]
            },
    )
}

/// Some row has the id `id`.
pub open spec fn has_id(rows: Seq<UserView>, id: i32) -> bool {
    exists|i: int| 0 <= i < rows.len() && (#[trigger] rows[i]).id == id
}

/// The rows, with the password `password` in each row that has the id `id`.
pub open spec fn with_password_of(rows: Seq<UserView>, id: i32, password: Seq<char>) -> Seq<
    UserView,
> {
    Seq::new(
        rows.len(),
        |i: int|
            if rows[i].id == id {
                UserView { password, ..rows[i] }
            } else {
                rows[i]
            },
    )
}

/// The rows without the one that has the login `login`; all of them where
/// none has it.
pub open spec fn without_login(rows: Seq<UserView>, login: Seq<char>) -> Seq<UserView> {
    if has_login(rows, login) {
        rows.remove(choose|i: int| 0 <= i < rows.len() && (#[trigger] rows[i]).login == login)
    } else {
        rows
    }
}

/// The user accounts, oldest first.
pub struct UserRepositoryImpl {
    users: Vec<User>,
    last_id: i32,
}

impl UserRepositoryImpl {
    /// The accounts as plain values, oldest first.
    pub closed spec fn rows(&self) -> Seq<UserView> {
        self.users@.map_values(|u: User| u@)
    }

    /// The id that was given out last; 0 where none was.
    pub closed spec fn last_id(&self) -> i32 {
        self.last_id
    }

    /// What holds of every repository: logins are unique, email addresses
    /// are unique, and the ids rise up to the id that was given out last.
    pub open spec fn wf(&self) -> bool {
        well_formed_rows(self.rows(), self.last_id())
    }

    /// A repository without accounts.
    pub fn new() -> (repository: UserRepositoryImpl)
        ensures
            repository.wf(),
            repository.rows() == Seq::<UserView>::empty(),
            repository.last_id() == 0,
    {
        UserRepositoryImpl { users: Vec::new(), last_id: 0 }
    }

    /// The repository that holds `users` in their order, with the id of the
    /// last of them as the id that was given out last. None where two of
    /// them share a login or an email address, or the ids do not rise.
    pub fn from_users(users: Vec<User>) -> (restored: Option<UserRepositoryImpl>)
        ensures
            restored is Some <==> well_formed_rows(
                users@.map_values(|u: User| u@),
                last_id_of(users@.map_values(|u: User| u@)),
            ),
            restored matches Some(repository) ==> {
                &&& repository.wf()
                &&& repository.rows() == users@.map_values(|u: User| u@)
                &&& repository.last_id() == last_id_of(repository.rows())
            },
    {
        let ghost rows = users@.map_values(|u: User| u@);
        let mut i: usize = 0;
        while i < users.len()
            invariant
                i <= users.len(),
                rows == users@.map_values(|u: User| u@),
                forall|a: int, b: int|
                    0 <= a < i && 0 <= b < i && a != b ==> (#[trigger] rows[a]).login != (
                    #[trigger] rows[b]).login,
                forall|a: int, b: int|
                    0 <= a < i && 0 <= b < i && a != b ==> (#[trigger] rows[a]).email != (
                    #[trigger] rows[b]).email,
                forall|a: int, b: int|
                    0 <= a < b < i ==> (#[trigger] rows[a]).id < (#[trigger] rows[b]).id,
            decreases users.len() - i,
        {
            if i > 0 && users[i - 1].id >= users[i].id {
                assert(!(rows[i - 1].id < rows[i as int].id));
                return None;
            }
            let mut j: usize = 0;
            while j < i
                invariant
                    j <= i < users.len(),
                    rows == users@.map_values(|u: User| u@),
                    forall|b: int|
                        0 <= b < j ==> (#[trigger] rows[b]).login != rows[i as int].login
                            && rows[b].email != rows[i as int].email,
                decreases i - j,
            {
                if str_eq(users[j].login.as_str(), users[i].login.as_str()) {
                    assert(rows[j as int].login == rows[i as int].login);
                    return None;
                }
                if str_eq(users[j].email.as_str(), users[i].email.as_str()) {
                    assert(rows[j as int].email == rows[i as int].email);
                    return None;
                }
                j = j + 1;
            }
            proof {
                assert forall|a: int, b: int| 0 <= a < b < i + 1 implies (#[trigger] rows[a]).id < (
                #[trigger] rows[b]).id by {
                    if b == i && a < i - 1 {
                        assert(rows[a].id < rows[i - 1].id);
                    }
                }
            }
            i = i + 1;
        }
        let last_id = if users.len() == 0 {
            0
        } else {
            users[users.len() - 1].id
        };
        proof {
            assert forall|a: int| 0 <= a < rows.len() implies (#[trigger] rows[a]).id <= last_id by {
                if a < rows.len() - 1 {
                    assert(rows[a].id < rows[rows.len() - 1].id);
                }
            }
        }
        Some(UserRepositoryImpl { users, last_id })
    }

    /// The number of accounts.
    pub fn len(&self) -> (n: usize)
        ensures
            n == self.rows().len(),
    {
        self.users.len()
    }

    /// Where the first account stands that has the login `login` or the
    /// email address `email`.
    fn position(&self, login: &str, email: &str) -> (place: Option<usize>)
        ensures
            match place {
                Some(i) => is_first_match(self.rows(), login@, email@, i as int),
                None => !has_match(self.rows(), login@, email@),
            },
    {
        let mut i: usize = 0;
        while i < self.users.len()
            invariant
                i <= self.users.len(),
                forall|j: int| 0 <= j < i ==> !is_match(#[trigger] self.rows()[j], login@, email@),
            decreases self.users.len() - i,
        {
            if str_eq(self.users[i].login.as_str(), login) || str_eq(
                self.users[i].email.as_str(),
                email,
            ) {
                return Some(i);
            }
            i = i + 1;
        }
        None
    }

    /// Where the account stands that has the login `login`.
    fn position_of_login(&self, login: &str) -> (place: Option<usize>)
        ensures
            match place {
                Some(i) => i < self.rows().len() && self.rows()[i as int].login == login@,
                None => !has_login(self.rows(), login@),
            },
    {
        let mut i: usize = 0;
        while i < self.users.len()
            invariant
                i <= self.users.len(),
                forall|j: int| 0 <= j < i ==> (#[trigger] self.rows()[j]).login != login@,
            decreases self.users.len() - i,
        {
            if str_eq(self.users[i].login.as_str(), login) {
                return Some(i);
            }
            i = i + 1;
        }
        None
    }

    /// Where the account stands that has the email address `email`.
    fn position_of_email(&self, email: &str) -> (place: Option<usize>)
        ensures
            match place {
                Some(i) => i < self.rows().len() && self.rows()[i as int].email == email@,
                None => !has_email(self.rows(), email@),
            },
    {
        let mut i: usize = 0;
        while i < self.users.len()
            invariant
                i <= self.users.len(),
                forall|j: int| 0 <= j < i ==> (#[trigger] self.rows()[j]).email != email@,
            decreases self.users.len() - i,
        {
            if str_eq(self.users[i].email.as_str(), email) {
                return Some(i);
            }
            i = i + 1;
        }
        None
    }

    /// The first account that has the login `login` or the email address
    /// `email`, where there is one.
    pub fn find_by_login_or_email(&self, login: &str, email: &str) -> (found: Option<User>)
        ensures
            match found {
                Some(user) => first_match(self.rows(), login@, email@) == Some(user@),
                None => first_match(self.rows(), login@, email@) is None,
            },
    {
        match self.position(login, email) {
            Some(i) => {
                proof {
                    lemma_first_match_is_at(self.rows(), login@, email@, i as int);
                }
                Some(self.users[i].duplicate())
            },
            None => None,
        }
    }

    /// The account that has the login `login`, where there is one.
    pub fn find_by_login(&self, login: &str) -> (found: Option<User>)
        ensures
            match found {
                Some(user) => self.rows().contains(user@) && user@.login == login@,
                None => !has_login(self.rows(), login@),
            },
    {
        match self.position_of_login(login) {
            Some(i) => {
                assert(self.rows()[i as int] == self.users@[i as int]@);
                Some(self.users[i].duplicate())
            },
            None => None,
        }
    }

    /// The account that has the email address `email`, where there is one.
    pub fn find_by_email(&self, email: &str) -> (found: Option<User>)
        ensures
            match found {
                Some(user) => self.rows().contains(user@) && user@.email == email@,
                None => !has_email(self.rows(), email@),
            },
    {
        match self.position_of_email(email) {
            Some(i) => {
                assert(self.rows()[i as int] == self.users@[i as int]@);
                Some(self.users[i].duplicate())
            },
            None => None,
        }
    }

    /// Adds an account under the next id. `AlreadyExists`, and no change,
    /// where an account has the login or the email address; `DatabaseError`,
    /// and no change, where the ids have run out.
    pub fn add_user(&mut self, username: &str, login: &str, email: &str, password: &str) -> (done:
        Result<(), UserError>)
        requires
            old(self).wf(),
        ensures
            final(self).wf(),
            match done {
                Ok(_) => {
                    &&& !has_match(old(self).rows(), login@, email@)
                    &&& old(self).last_id() < i32::MAX
                    &&& final(self).last_id() == old(self).last_id() + 1
                    &&& final(self).rows() == old(self).rows().push(
                        UserView {
                            id: final(self).last_id(),
                            login: login@,
                            username: username@,
                            email: email@,
                            password: password@,
                        },
                    )
                },
                Err(e) => {
                    &&& final(self).rows() == old(self).rows()
                    &&& final(self).last_id() == old(self).last_id()
                    &&& if has_match(old(self).rows(), login@, email@) {
                        e == UserError::AlreadyExists
                    } else {
                        e == UserError::DatabaseError && old(self).last_id() == i32::MAX
                    }
                },
            },
    {
        if self.position(login, email).is_some() {
            return Err(UserError::AlreadyExists);
        }
        if self.last_id == i32::MAX {
            return Err(UserError::DatabaseError);
        }
        let ghost before = self.rows();
        let id = self.last_id + 1;
        let user = User {
            id,
            login: login.to_owned(),
            username: username.to_owned(),
            email: email.to_owned(),
            password: password.to_owned(),
        };
        self.users.push(user);
        self.last_id = id;
        proof {
            let after = self.rows();
            assert(after == before.push(user@));
            assert forall|i: int, j: int|
                0 <= i < after.len() && 0 <= j < after.len() && i != j implies (#[trigger] after[i]).login
                != (#[trigger] after[j]).login by {
                if i < before.len() && j < before.len() {
                    assert(before[i].login != before[j].login);
                } else if i < before.len() {
                    assert(!is_match(before[i], login@, email@));
                } else {
                    assert(!is_match(before[j], login@, email@));
                }
            }
            assert forall|i: int, j: int|
                0 <= i < after.len() && 0 <= j < after.len() && i != j implies (#[trigger] after[i]).email
                != (#[trigger] after[j]).email by {
                if i < before.len() && j < before.len() {
                    assert(before[i].email != before[j].email);
                } else if i < before.len() {
                    assert(!is_match(before[i], login@, email@));
                } else {
                    assert(!is_match(before[j], login@, email@));
                }
            }
            assert forall|i: int, j: int| 0 <= i < j < after.len() implies (#[trigger] after[i]).id < (
            #[trigger] after[j]).id by {
                if j < before.len() {
                    assert(before[i].id < before[j].id);
                } else {
                    assert(before[i].id <= id - 1);
                }
            }
            assert forall|i: int| 0 <= i < after.len() implies (#[trigger] after[i]).id <= id by {
                if i < before.len() {
                    assert(before[i].id <= id - 1);
                }
            }
        }
        Ok(())
    }

    /// Puts the encoded hash `new_password` in the place of the password of
    /// the account with the email address `email`, and tells whether there
    /// is such an account.
    pub fn update_password(&mut self, email: &str, new_password: &str) -> (changed: bool)
        requires
            old(self).wf(),
        ensures
            final(self).wf(),
            changed == has_email(old(self).rows(), email@),
            final(self).last_id() == old(self).last_id(),
            final(self).rows() == with_password(old(self).rows(), email@, new_password@),
    {
        let ghost before = self.rows();
        match self.position_of_email(email) {
            Some(i) => {
                self.users[i].password = new_password.to_owned();
                proof {
                    let after = self.rows();
                    let goal = with_password(before, email@, new_password@);
                    assert(after.len() == goal.len());
                    assert forall|k: int| 0 <= k < after.len() implies after[k] == goal[k] by {
                        if k != i {
                            assert(before[k].email != before[i as int].email);
                        }
                    }
                    assert(after == goal);
                    lemma_with_password_keeps_well_formed(
                        before,
                        self.last_id,
                        email@,
                        new_password@,
                    );
                }
                true
            },
            None => {
                proof {
                    let goal = with_password(before, email@, new_password@);
                    assert forall|k: int| 0 <= k < before.len() implies before[k] == goal[k] by {
                        assert(before[k].email != email@);
                    }
                    assert(before == goal);
                }
                false
            },
        }
    }

    /// Puts the encoded hash `new_password` in the place of the password of
    /// the account with the id `id`, and tells whether there is such an
    /// account.
    pub fn update_password_by_id(&mut self, id: i32, new_password: &str) -> (changed: bool)
        requires
            old(self).wf(),
        ensures
            final(self).wf(),
            changed == has_id(old(self).rows(), id),
            final(self).last_id() == old(self).last_id(),
            final(self).rows() == with_password_of(old(self).rows(), id, new_password@),
    {
        let ghost before = self.rows();
        let ghost last = self.last_id;
        let mut i: usize = 0;
        while i < self.users.len()
            invariant
                i <= self.users.len(),
                self.rows() == before,
                self.last_id == last,
                before == old(self).rows(),
                last == old(self).last_id(),
                well_formed_rows(before, last),
                forall|j: int| 0 <= j < i ==> (#[trigger] before[j]).id != id,
            decreases self.users.len() - i,
        {
            if self.users[i].id == id {
                assert(before[i as int].id == id);
                self.users[i].password = new_password.to_owned();
                proof {
                    let after = self.rows();
                    let goal = with_password_of(before, id, new_password@);
                    assert(after.len() == goal.len());
                    assert forall|k: int| 0 <= k < after.len() implies after[k] == goal[k] by {
                        if k < i {
                            assert(before[k].id < before[i as int].id);
                        } else if k > i {
                            assert(before[i as int].id < before[k].id);
                        }
                    }
                    assert(after == goal);
                    assert(before[i as int].id == id);
                    lemma_with_password_of_keeps_well_formed(
                        before,
                        self.last_id,
                        id,
                        new_password@,
                    );
                }
                return true;
            }
            i = i + 1;
        }
        proof {
            let goal = with_password_of(before, id, new_password@);
            assert forall|k: int| 0 <= k < before.len() implies before[k] == goal[k] by {
                assert(before[k].id != id);
            }
            assert(before == goal);
        }
        false
    }

    /// Removes the account with the login `login`, if there is one, and
    /// tells whether there was.
    pub fn delete_user(&mut self, login: &str) -> (removed: bool)
        requires
            old(self).wf(),
        ensures
            final(self).wf(),
            removed == has_login(old(self).rows(), login@),
            final(self).last_id() == old(self).last_id(),
            final(self).rows() == without_login(old(self).rows(), login@),
    {
        let ghost before = self.rows();
        match self.position_of_login(login) {
            Some(i) => {
                let _ = self.users.remove(i);
                proof {
                    assert(self.rows() == before.remove(i as int));
                    lemma_remove_keeps_well_formed(before, self.last_id, i as int);
                    let k = choose|k: int| 0 <= k < before.len() && (#[trigger] before[k]).login
                        == login@;
                    if k != i {
                        assert(before[k].login != before[i as int].login);
                    }
                }
                true
            },
            None => false,
        }
    }

    /// Copies of all accounts, oldest first.
    pub fn all(&self) -> (users: Vec<User>)
        ensures
            users@.map_values(|u: User| u@) == self.rows(),
    {
        let mut users: Vec<User> = Vec::new();
        let mut i: usize = 0;
        while i < self.users.len()
            invariant
                i <= self.users.len(),
                users@.len() == i,
                forall|j: int| 0 <= j < i ==> (#[trigger] users@[j])@ == self.users@[j]@,
            decreases self.users.len() - i,
        {
            users.push(self.users[i].duplicate());
            i = i + 1;
        }
        assert(users@.map_values(|u: User| u@) =~= self.rows());
        users
    }
}

/// The first row found by a search from the front is the first match.
pub proof fn lemma_first_match_is_at(rows: Seq<UserView>, login: Seq<char>, email: Seq<char>, place: int)
    requires
        is_first_match(rows, login, email, place),
    ensures
        has_match(rows, login, email),
        first_match(rows, login, email) == Some(rows[place]),
{
    let chosen = choose|p: int| is_first_match(rows, login, email, p);
    if chosen < place {
        assert(!is_match(rows[chosen], login, email));
    } else if place < chosen {
        assert(!is_match(rows[place], login, email));
    }
}

/// A new password in a row keeps logins and email addresses unique and ids
/// rising.
pub proof fn lemma_with_password_keeps_well_formed(
    rows: Seq<UserView>,
    last_id: i32,
    email: Seq<char>,
    password: Seq<char>,
)
    requires
        well_formed_rows(rows, last_id),
    ensures
        well_formed_rows(with_password(rows, email, password), last_id),
{
    let after = with_password(rows, email, password);
    assert forall|i: int, j: int|
        0 <= i < after.len() && 0 <= j < after.len() && i != j implies (#[trigger] after[i]).login != (
    #[trigger] after[j]).login by {
        assert(rows[i].login != rows[j].login);
    }
    assert forall|i: int, j: int|
        0 <= i < after.len() && 0 <= j < after.len() && i != j implies (#[trigger] after[i]).email != (
    #[trigger] after[j]).email by {
        assert(rows[i].email != rows[j].email);
    }
    assert forall|i: int, j: int| 0 <= i < j < after.len() implies (#[trigger] after[i]).id < (
    #[trigger] after[j]).id by {
        assert(rows[i].id < rows[j].id);
    }
    assert forall|i: int| 0 <= i < after.len() implies (#[trigger] after[i]).id <= last_id by {
        assert(rows[i].id <= last_id);
    }
}

/// A new password in the row of an id keeps logins and email addresses
/// unique and ids rising.
pub proof fn lemma_with_password_of_keeps_well_formed(
    rows: Seq<UserView>,
    last_id: i32,
    id: i32,
    password: Seq<char>,
)
    requires
        well_formed_rows(rows, last_id),
    ensures
        well_formed_rows(with_password_of(rows, id, password), last_id),
{
    let after = with_password_of(rows, id, password);
    assert forall|i: int, j: int|
        0 <= i < after.len() && 0 <= j < after.len() && i != j implies (#[trigger] after[i]).login != (
    #[trigger] after[j]).login by {
        assert(rows[i].login != rows[j].login);
    }
    assert forall|i: int, j: int|
        0 <= i < after.len() && 0 <= j < after.len() && i != j implies (#[trigger] after[i]).email != (
    #[trigger] after[j]).email by {
        assert(rows[i].email != rows[j].email);
    }
    assert forall|i: int, j: int| 0 <= i < j < after.len() implies (#[trigger] after[i]).id < (
    #[trigger] after[j]).id by {
        assert(rows[i].id < rows[j].id);
    }
    assert forall|i: int| 0 <= i < after.len() implies (#[trigger] after[i]).id <= last_id by {
        assert(rows[i].id <= last_id);
    }
}

/// Removing a row keeps logins and email addresses unique and ids rising.
pub proof fn lemma_remove_keeps_well_formed(rows: Seq<UserView>, last_id: i32, place: int)
    requires
        well_formed_rows(rows, last_id),
        0 <= place < rows.len(),
    ensures
        well_formed_rows(rows.remove(place), last_id),
{
    let after = rows.remove(place);
    let from = |k: int|
        if k < place {
            k
        } else {
            k + 1
        };
    assert forall|i: int, j: int|
        0 <= i < after.len() && 0 <= j < after.len() && i != j implies (#[trigger] after[i]).login != (
    #[trigger] after[j]).login by {
        assert(after[i] == rows[from(i)] && after[j] == rows[from(j)]);
        assert(rows[from(i)].login != rows[from(j)].login);
    }
    assert forall|i: int, j: int|
        0 <= i < after.len() && 0 <= j < after.len() && i != j implies (#[trigger] after[i]).email != (
    #[trigger] after[j]).email by {
        assert(after[i] == rows[from(i)] && after[j] == rows[from(j)]);
        assert(rows[from(i)].email != rows[from(j)].email);
    }
    assert forall|i: int, j: int| 0 <= i < j < after.len() implies (#[trigger] after[i]).id < (
    #[trigger] after[j]).id by {
        assert(after[i] == rows[from(i)] && after[j] == rows[from(j)]);
        assert(rows[from(i)].id < rows[from(j)].id);
    }
    assert forall|i: int| 0 <= i < after.len() implies (#[trigger] after[i]).id <= last_id by {
        assert(after[i] == rows[from(i)]);
        assert(rows[from(i)].id <= last_id);
    }
}

} // verus!
