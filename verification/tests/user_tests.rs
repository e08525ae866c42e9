use auth_core::auth_errors::{AuthServiceError, ErrorKind, UserError, UserServiceError};
use auth_core::user::{User, UserRepositoryImpl};
use auth_core::user_service::UserService;

fn repository() -> UserRepositoryImpl {
    let mut repository = UserRepositoryImpl::new();
    repository.add_user("Ann", "ann", "ann@example.org", "hash-a").unwrap();
    repository.add_user("Bob", "bob", "bob@example.org", "hash-b").unwrap();
    repository
}

fn parts(user: &User) -> (i32, &str, &str, &str, &str) {
    (user.id, &user.login, &user.username, &user.email, &user.password)
}

#[test]
fn new_repository_is_empty() {
    let repository = UserRepositoryImpl::new();
    assert_eq!(repository.len(), 0);
    assert!(repository.all().is_empty());
    assert!(repository.find_by_login_or_email("ann", "ann@example.org").is_none());
}

#[test]
fn added_accounts_are_found() {
    let repository = repository();
    assert_eq!(repository.len(), 2);
    let ann = repository.find_by_login_or_email("ann", "nobody").unwrap();
    assert_eq!(parts(&ann), (1, "ann", "Ann", "ann@example.org", "hash-a"));
    let bob = repository.find_by_login_or_email("nobody", "bob@example.org").unwrap();
    assert_eq!(parts(&bob), (2, "bob", "Bob", "bob@example.org", "hash-b"));
    assert!(repository.find_by_login_or_email("nobody", "nobody").is_none());
    assert!(repository.find_by_login_or_email("Ann", "ANN@example.org").is_none());
}

#[test]
fn the_first_account_that_matches_is_found() {
    let repository = repository();
    let found = repository.find_by_login_or_email("bob", "ann@example.org").unwrap();
    assert_eq!(found.login, "ann");
    let found = repository.find_by_login_or_email("ann@example.org", "ann@example.org").unwrap();
    assert_eq!(found.login, "ann");
}

#[test]
fn lookups_by_one_field() {
    let repository = repository();
    assert_eq!(repository.find_by_login("bob").unwrap().id, 2);
    assert!(repository.find_by_login("bob@example.org").is_none());
    assert_eq!(repository.find_by_email("bob@example.org").unwrap().id, 2);
    assert!(repository.find_by_email("bob").is_none());
}

#[test]
fn login_and_email_are_unique() {
    let mut repository = repository();
    assert_eq!(
        repository.add_user("Ann 2", "ann", "ann2@example.org", "h"),
        Err(UserError::AlreadyExists)
    );
    assert_eq!(
        repository.add_user("Ann 3", "ann3", "ann@example.org", "h"),
        Err(UserError::AlreadyExists)
    );
    assert_eq!(
        repository.add_user("Both", "ann", "bob@example.org", "h"),
        Err(UserError::AlreadyExists)
    );
    assert_eq!(repository.len(), 2);
    assert_eq!(repository.add_user("Ann", "cat", "cat@example.org", "hash-a"), Ok(()));
    assert_eq!(repository.len(), 3);
    assert_eq!(repository.all()[2].id, 3);
}

#[test]
fn password_is_replaced_for_one_account() {
    let mut repository = repository();
    assert!(repository.update_password("bob@example.org", "new"));
    assert!(!repository.update_password("bob", "other"));
    assert!(!repository.update_password("nobody@example.org", "other"));
    let all = repository.all();
    assert_eq!(parts(&all[0]), (1, "ann", "Ann", "ann@example.org", "hash-a"));
    assert_eq!(parts(&all[1]), (2, "bob", "Bob", "bob@example.org", "new"));
}

#[test]
fn password_is_replaced_by_id() {
    let mut repository = repository();
    assert!(repository.update_password_by_id(1, "new"));
    assert!(!repository.update_password_by_id(3, "other"));
    assert!(!repository.update_password_by_id(0, "other"));
    let all = repository.all();
    assert_eq!(parts(&all[0]), (1, "ann", "Ann", "ann@example.org", "new"));
    assert_eq!(parts(&all[1]), (2, "bob", "Bob", "bob@example.org", "hash-b"));
}

#[test]
fn deleted_account_is_gone() {
    let mut repository = repository();
    assert!(!repository.delete_user("nobody"));
    assert!(!repository.delete_user("ann@example.org"));
    assert!(repository.delete_user("ann"));
    assert!(!repository.delete_user("ann"));
    assert_eq!(repository.len(), 1);
    assert_eq!(repository.all()[0].login, "bob");
    assert!(repository.find_by_login_or_email("ann", "ann@example.org").is_none());
    assert_eq!(repository.add_user("Ann", "ann", "ann@example.org", "h"), Ok(()));
    assert_eq!(repository.find_by_login("ann").unwrap().id, 3);
}

#[test]
fn accounts_are_found_by_the_whole_text_only() {
    let mut repository = UserRepositoryImpl::new();
    repository.add_user("Zoë", "zoë", "zoë@example.org", "hash-z").unwrap();
    repository.add_user("Empty", "", "empty@example.org", "hash-e").unwrap();
    assert_eq!(repository.find_by_login("zoë").unwrap().id, 1);
    assert_eq!(repository.find_by_login("").unwrap().id, 2);
    for other in ["zo", "zoe", "zoë ", "Zoë", "zoé", "zoë@example.org", " "] {
        assert!(repository.find_by_login(other).is_none());
    }
    assert_eq!(repository.find_by_email("zoë@example.org").unwrap().id, 1);
    for other in ["zoë@example.orG", "zoë@example.or", "zoe@example.org", ""] {
        assert!(repository.find_by_email(other).is_none());
    }
}

#[test]
fn a_copy_of_an_account_holds_the_same() {
    let repository = repository();
    let ann = repository.find_by_login("ann").unwrap();
    let copy = ann.duplicate();
    assert_eq!(parts(&copy), parts(&ann));
}

#[test]
fn service_adds_an_account_with_a_hash() {
    let mut repository = UserRepositoryImpl::new();
    assert_eq!(
        UserService::add_user(&mut repository, "Ann", "ann", "ann@example.org", "Abcdefghij1!"),
        Ok(())
    );
    let ann = repository.find_by_login("ann").unwrap();
    assert_eq!((ann.id, ann.username.as_str(), ann.email.as_str()), (1, "Ann", "ann@example.org"));
    assert_ne!(ann.password, "Abcdefghij1!");
    assert!(UserService::verify_password(&ann.password, "Abcdefghij1!"));
    assert_eq!(
        UserService::add_user(&mut repository, "Ann", "ann", "other@example.org", "Abcdefghij1!"),
        Err(UserServiceError::DatabaseError)
    );
    assert_eq!(repository.len(), 1);
}

#[test]
fn service_adds_no_account_with_a_weak_password() {
    let mut empty = UserRepositoryImpl::new();
    for weak in ["", "pw", "Abcdefghi1!", "abcdefghij1!", "ABCDEFGHIJ1!", "Abcdefghijk!", "Abcdefghijk1"] {
        assert_eq!(
            UserService::add_user(&mut empty, "Ann", "ann", "ann@example.org", weak),
            Err(UserServiceError::InvalidPassword)
        );
    }
    assert_eq!(empty.len(), 0);
    let mut taken = repository();
    assert_eq!(
        UserService::add_user(&mut taken, "Ann", "ann", "ann@example.org", "pw"),
        Err(UserServiceError::InvalidPassword)
    );
    assert_eq!(taken.len(), 2);
}

#[test]
fn service_sets_no_weak_password() {
    let mut repository = repository();
    assert_eq!(
        UserService::update_password(&mut repository, "ann@example.org", "next"),
        Err(UserServiceError::InvalidPassword)
    );
    assert_eq!(
        UserService::update_password(&mut repository, "nobody", "next"),
        Err(UserServiceError::InvalidPassword)
    );
    assert_eq!(repository.find_by_login("ann").unwrap().password, "hash-a");
    assert_eq!(repository.find_by_login("bob").unwrap().password, "hash-b");
}

#[test]
fn service_sets_a_password() {
    let mut repository = repository();
    assert_eq!(
        UserService::update_password(&mut repository, "ann@example.org", "Zyxwvutsrq9#"),
        Ok(())
    );
    let ann = repository.find_by_login("ann").unwrap();
    assert!(UserService::verify_password(&ann.password, "Zyxwvutsrq9#"));
    assert_eq!(repository.find_by_login("bob").unwrap().password, "hash-b");
    assert_eq!(UserService::update_password(&mut repository, "nobody", "Zyxwvutsrq9#"), Ok(()));
    assert_eq!(repository.find_by_login("bob").unwrap().password, "hash-b");
}

#[test]
fn service_deletes_and_lists() {
    let mut repository = repository();
    assert_eq!(UserService::all_users(&repository).unwrap().len(), 2);
    assert_eq!(UserService::delete_user(&mut repository, "ann"), Ok(()));
    assert_eq!(UserService::delete_user(&mut repository, "ann"), Ok(()));
    let users = UserService::all_users(&repository).unwrap();
    assert_eq!(users.len(), 1);
    assert_eq!(parts(&users[0]), (2, "bob", "Bob", "bob@example.org", "hash-b"));
}

#[test]
fn errors_have_their_texts() {
    assert_eq!(AuthServiceError::HashingError.message(), "Hashing error");
    assert_eq!(AuthServiceError::DatabaseError.message(), "Database error");
    assert_eq!(AuthServiceError::InvalidEmail.message(), "Invalid email");
    assert_eq!(AuthServiceError::InvalidPassword.message(), "Invalid password");
    assert_eq!(AuthServiceError::InvalidCredentials.message(), "Invalid credentials");
    assert_eq!(AuthServiceError::UserNotFound.message(), "User not found");
    assert_eq!(AuthServiceError::UserAlreadyExists.message(), "User already exists");
    assert_eq!(AuthServiceError::Unknown.message(), "Unknown error");
    assert_eq!(AuthServiceError::InvalidToken.message(), "Invalid token");
    assert_eq!(UserError::NotFound.message(), "User not found");
    assert_eq!(UserError::AlreadyExists.message(), "User already exists");
    assert_eq!(UserError::DatabaseError.message(), "Database error");
    assert_eq!(UserError::HashingError.message(), "Password hashing error");
    assert_eq!(UserError::InvalidPassword.message(), "Invalid password");
    assert_eq!(UserError::Unknown.message(), "Unknown error");
    assert_eq!(UserError::InvalidEmail.message(), "Invalid email");
    assert_eq!(UserError::InvalidLogin.message(), "Invalid login");
    assert_eq!(UserError::InvalidUsername.message(), "Invalid username");
    assert_eq!(UserServiceError::HashingError.message(), "Password hashing error");
    assert_eq!(UserServiceError::DatabaseError.message(), "Database error");
    assert_eq!(UserServiceError::InvalidPassword.message(), "Invalid password");
}

#[test]
fn errors_have_their_kinds() {
    assert_eq!(AuthServiceError::InvalidPassword.kind(), ErrorKind::Validation);
    assert_eq!(AuthServiceError::InvalidEmail.kind(), ErrorKind::Validation);
    assert_eq!(AuthServiceError::UserAlreadyExists.kind(), ErrorKind::Conflict);
    assert_eq!(AuthServiceError::UserNotFound.kind(), ErrorKind::NotFound);
    assert_eq!(AuthServiceError::InvalidCredentials.kind(), ErrorKind::Auth);
    assert_eq!(AuthServiceError::InvalidToken.kind(), ErrorKind::Auth);
    assert_eq!(AuthServiceError::HashingError.kind(), ErrorKind::Infrastructure);
    assert_eq!(AuthServiceError::DatabaseError.kind(), ErrorKind::Infrastructure);
    assert_eq!(AuthServiceError::Unknown.kind(), ErrorKind::Infrastructure);
}

#[test]
fn repository_errors_as_flow_errors() {
    assert_eq!(UserError::NotFound.to_auth(), AuthServiceError::UserNotFound);
    assert_eq!(UserError::AlreadyExists.to_auth(), AuthServiceError::UserAlreadyExists);
    assert_eq!(UserError::DatabaseError.to_auth(), AuthServiceError::DatabaseError);
    assert_eq!(UserError::HashingError.to_auth(), AuthServiceError::HashingError);
    assert_eq!(UserError::InvalidPassword.to_auth(), AuthServiceError::InvalidPassword);
    assert_eq!(UserError::InvalidEmail.to_auth(), AuthServiceError::InvalidEmail);
    assert_eq!(UserError::Unknown.to_auth(), AuthServiceError::Unknown);
    assert_eq!(UserError::InvalidLogin.to_auth(), AuthServiceError::Unknown);
    assert_eq!(UserError::InvalidUsername.to_auth(), AuthServiceError::Unknown);
}

fn user(id: i32, login: &str, email: &str) -> User {
    User {
        id,
        login: login.to_string(),
        username: "Name".to_string(),
        email: email.to_string(),
        password: "hash".to_string(),
    }
}

#[test]
fn repository_is_restored_from_its_accounts() {
    let users = vec![user(3, "ann", "ann@example.org"), user(7, "bob", "bob@example.org")];
    let mut repository = UserRepositoryImpl::from_users(users).unwrap();
    assert_eq!(repository.len(), 2);
    assert_eq!(repository.find_by_login("bob").unwrap().id, 7);
    assert_eq!(repository.add_user("Cat", "cat", "cat@example.org", "h"), Ok(()));
    assert_eq!(repository.find_by_login("cat").unwrap().id, 8);
    assert_eq!(parts(&repository.all()[0]), (3, "ann", "Name", "ann@example.org", "hash"));
}

#[test]
fn repository_of_no_accounts_is_restored() {
    let mut repository = UserRepositoryImpl::from_users(Vec::new()).unwrap();
    assert_eq!(repository.len(), 0);
    assert_eq!(repository.add_user("Ann", "ann", "ann@example.org", "h"), Ok(()));
    assert_eq!(repository.all()[0].id, 1);
}

#[test]
fn repository_is_not_restored_from_accounts_that_collide() {
    let same_login = vec![user(1, "ann", "a@example.org"), user(2, "ann", "b@example.org")];
    assert!(UserRepositoryImpl::from_users(same_login).is_none());
    let same_email = vec![user(1, "ann", "a@example.org"), user(2, "bob", "a@example.org")];
    assert!(UserRepositoryImpl::from_users(same_email).is_none());
    let far_apart = vec![
        user(1, "ann", "a@example.org"),
        user(2, "bob", "b@example.org"),
        user(3, "cat", "a@example.org"),
    ];
    assert!(UserRepositoryImpl::from_users(far_apart).is_none());
}

#[test]
fn repository_is_not_restored_from_ids_that_do_not_rise() {
    let falling = vec![user(2, "ann", "a@example.org"), user(1, "bob", "b@example.org")];
    assert!(UserRepositoryImpl::from_users(falling).is_none());
    let level = vec![user(2, "ann", "a@example.org"), user(2, "bob", "b@example.org")];
    assert!(UserRepositoryImpl::from_users(level).is_none());
    let rising = vec![user(-5, "ann", "a@example.org"), user(-1, "bob", "b@example.org")];
    assert!(UserRepositoryImpl::from_users(rising).is_some());
}

#[test]
fn ids_that_have_run_out_stop_new_accounts() {
    let mut repository =
        UserRepositoryImpl::from_users(vec![user(i32::MAX, "ann", "a@example.org")]).unwrap();
    assert_eq!(
        repository.add_user("Bob", "bob", "b@example.org", "h"),
        Err(UserError::DatabaseError)
    );
    assert_eq!(
        repository.add_user("Ann", "ann", "c@example.org", "h"),
        Err(UserError::AlreadyExists)
    );
    assert_eq!(repository.len(), 1);
    assert_eq!(
        UserService::add_user(&mut repository, "Bob", "bob", "b@example.org", "Abcdefghij1!"),
        Err(UserServiceError::DatabaseError)
    );
    assert_eq!(
        UserService::add_user(&mut repository, "Bob", "bob", "b@example.org", "pw"),
        Err(UserServiceError::InvalidPassword)
    );
}
