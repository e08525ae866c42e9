use auth_core::auth_dto::{
    AuthErrorResponse, AuthResponse, DeleteUserRequest, LoginRequest, RegisterRequest,
    UpdatePasswordRequest,
};
use auth_core::auth_errors::AuthServiceError;
use auth_core::auth_jwt::{TokenIssuer, MAX_TTL_SECONDS};
use auth_core::auth_service::{AuthService, RESET_REQUESTED};
use auth_core::clock::now_seconds;
use auth_core::credential_hasher::verify_password;
use auth_core::responses_dto::{ApiResponse, DetailedErrorResponse, PaginatedResponse};
use auth_core::user::{User, UserRepositoryImpl};
use auth_core::user_dto::{
    CreateUserRequest, SingleUserResponse, UpdateUserRequest, UserErrorResponse,
    UserMessageResponse, UserResponse, UsersResponse,
};
use auth_core::user_password_reset::ResetTokenStore;

const PASSWORD: &str = "Abcdefghij1!";

fn issuer() -> TokenIssuer {
    TokenIssuer::new(b"secret".to_vec(), 3600).unwrap()
}

fn request(login: &str, email: &str, password: &str) -> RegisterRequest {
    RegisterRequest {
        login: login.to_string(),
        username: "Ann".to_string(),
        email: email.to_string(),
        password: password.to_string(),
    }
}

fn registered() -> UserRepositoryImpl {
    let mut repository = UserRepositoryImpl::new();
    AuthService::register(request("ann", "ann@example.org", PASSWORD), &mut repository, &issuer())
        .unwrap();
    repository
}

#[test]
fn registration_stores_the_account_and_grants_a_token() {
    let mut repository = UserRepositoryImpl::new();
    let issuer = issuer();
    let response =
        AuthService::register(request("ann", "ann@example.org", PASSWORD), &mut repository, &issuer)
            .unwrap();
    assert!(response.success);
    assert_eq!(response.message.as_deref(), Some("Registration successful"));
    let token = response.token.unwrap();
    assert_eq!(issuer.validate(&token), Ok("ann@example.org".to_string()));
    let user = response.user.unwrap();
    assert_eq!((user.id, user.login.as_str(), user.username.as_str()), (1, "ann", "Ann"));
    assert_eq!(user.email, "ann@example.org");
    assert_eq!(repository.len(), 1);
    let stored = repository.find_by_login("ann").unwrap();
    assert_eq!(stored.password, user.password);
    assert_ne!(stored.password, PASSWORD);
    assert!(verify_password(&stored.password, PASSWORD));
}

#[test]
fn registration_refuses_a_weak_password() {
    let mut repository = UserRepositoryImpl::new();
    let outcome =
        AuthService::register(request("ann", "ann@example.org", "short"), &mut repository, &issuer());
    assert_eq!(outcome.err(), Some(AuthServiceError::InvalidPassword));
    assert_eq!(repository.len(), 0);
}

#[test]
fn registration_twice_is_refused() {
    let mut repository = registered();
    let issuer = issuer();
    let again =
        AuthService::register(request("ann", "ann@example.org", PASSWORD), &mut repository, &issuer);
    assert_eq!(again.err(), Some(AuthServiceError::UserAlreadyExists));
    let same_login =
        AuthService::register(request("ann", "new@example.org", PASSWORD), &mut repository, &issuer);
    assert_eq!(same_login.err(), Some(AuthServiceError::UserAlreadyExists));
    let same_email =
        AuthService::register(request("new", "ann@example.org", PASSWORD), &mut repository, &issuer);
    assert_eq!(same_email.err(), Some(AuthServiceError::UserAlreadyExists));
    assert_eq!(repository.len(), 1);
    let users = repository.all();
    assert_eq!(users.iter().filter(|u| u.login == "ann").count(), 1);
    assert_eq!(users.iter().filter(|u| u.email == "ann@example.org").count(), 1);
}

#[test]
fn registration_checks_the_password_before_the_account() {
    let mut repository = registered();
    let outcome =
        AuthService::register(request("ann", "ann@example.org", "weak"), &mut repository, &issuer());
    assert_eq!(outcome.err(), Some(AuthServiceError::InvalidPassword));
}

#[test]
fn registration_of_another_account() {
    let mut repository = registered();
    let response =
        AuthService::register(request("bob", "bob@example.org", PASSWORD), &mut repository, &issuer())
            .unwrap();
    assert_eq!(response.user.unwrap().id, 2);
    assert_eq!(repository.len(), 2);
}

#[test]
fn login_with_the_right_password_grants_a_token() {
    let repository = registered();
    let issuer = issuer();
    let response = AuthService::login("ann@example.org", PASSWORD, &repository, &issuer).unwrap();
    assert!(response.success);
    assert_eq!(response.message.as_deref(), Some("Login successful"));
    assert_eq!(issuer.validate(&response.token.unwrap()), Ok("ann@example.org".to_string()));
    assert_eq!(response.user.unwrap().login, "ann");
    let by_login = AuthService::login("ann", PASSWORD, &repository, &issuer).unwrap();
    assert_eq!(issuer.validate(&by_login.token.unwrap()), Ok("ann@example.org".to_string()));
}

#[test]
fn bad_logins_get_the_same_answer() {
    let repository = registered();
    let issuer = issuer();
    let wrong_password = AuthService::login("ann@example.org", "Abcdefghij1?", &repository, &issuer);
    let no_account = AuthService::login("nobody@example.org", PASSWORD, &repository, &issuer);
    let empty = AuthService::login("", "", &repository, &issuer);
    assert_eq!(wrong_password.err(), Some(AuthServiceError::InvalidCredentials));
    assert_eq!(no_account.err(), Some(AuthServiceError::InvalidCredentials));
    assert_eq!(empty.err(), Some(AuthServiceError::InvalidCredentials));
}

#[test]
fn login_against_a_password_that_is_no_hash_is_refused() {
    let mut repository = UserRepositoryImpl::new();
    repository.add_user("Ann", "ann", "ann@example.org", PASSWORD).unwrap();
    let outcome = AuthService::login("ann", PASSWORD, &repository, &issuer());
    assert_eq!(outcome.err(), Some(AuthServiceError::InvalidCredentials));
}

#[test]
fn password_update_replaces_the_hash() {
    let mut repository = registered();
    let body = UpdatePasswordRequest {
        email: "ann@example.org".to_string(),
        new_password: "Zyxwvutsrq9#".to_string(),
    };
    assert_eq!(AuthService::update_password(body, &mut repository), Ok(()));
    let issuer = issuer();
    assert!(AuthService::login("ann", "Zyxwvutsrq9#", &repository, &issuer).is_ok());
    assert_eq!(
        AuthService::login("ann", PASSWORD, &repository, &issuer).err(),
        Some(AuthServiceError::InvalidCredentials)
    );
}

#[test]
fn password_update_refuses_a_weak_password() {
    let mut repository = registered();
    let hash = repository.find_by_login("ann").unwrap().password;
    for weak in ["", "short", "Abcdefghi1!", "abcdefghij1!", "ABCDEFGHIJ1!", "Abcdefghijk!", "Abcdefghijk1"] {
        let body = UpdatePasswordRequest {
            email: "ann@example.org".to_string(),
            new_password: weak.to_string(),
        };
        assert_eq!(
            AuthService::update_password(body, &mut repository),
            Err(AuthServiceError::InvalidPassword)
        );
        assert_eq!(repository.find_by_login("ann").unwrap().password, hash);
    }
    let issuer = issuer();
    assert!(AuthService::login("ann", PASSWORD, &repository, &issuer).is_ok());
    assert_eq!(
        AuthService::login("ann", "short", &repository, &issuer).err(),
        Some(AuthServiceError::InvalidCredentials)
    );
}

#[test]
fn password_update_looks_for_the_account_first() {
    let mut repository = registered();
    let body = UpdatePasswordRequest { email: "nobody".to_string(), new_password: "weak".to_string() };
    assert_eq!(AuthService::update_password(body, &mut repository), Err(AuthServiceError::UserNotFound));
}

#[test]
fn login_grants_a_token_under_every_issuer() {
    let repository = registered();
    for ttl in [1, 3600, MAX_TTL_SECONDS] {
        let issuer = TokenIssuer::new(b"secret".to_vec(), ttl).unwrap();
        let response = AuthService::login("ann", PASSWORD, &repository, &issuer).unwrap();
        assert_eq!(issuer.validate(&response.token.unwrap()), Ok("ann@example.org".to_string()));
        assert_eq!(
            AuthService::login("ann", "wrong", &repository, &issuer).err(),
            Some(AuthServiceError::InvalidCredentials)
        );
    }
}

#[test]
fn registration_without_an_id_left_stores_nothing() {
    let last = User {
        id: i32::MAX,
        login: "bob".to_string(),
        username: "Bob".to_string(),
        email: "bob@example.org".to_string(),
        password: "hash".to_string(),
    };
    let mut repository = UserRepositoryImpl::from_users(vec![last]).unwrap();
    assert_eq!(
        AuthService::register(request("ann", "ann@example.org", PASSWORD), &mut repository, &issuer())
            .err(),
        Some(AuthServiceError::DatabaseError)
    );
    assert_eq!(repository.len(), 1);
    assert!(repository.find_by_login("ann").is_none());
}

#[test]
fn registration_gives_the_next_id() {
    let mut repository = registered();
    let response = AuthService::register(
        request("bob", "bob@example.org", PASSWORD),
        &mut repository,
        &issuer(),
    )
    .unwrap();
    assert_eq!(response.user.unwrap().id, 2);
    assert_eq!(repository.find_by_login("ann").unwrap().id, 1);
    assert_eq!(repository.find_by_login("bob").unwrap().id, 2);
}

#[test]
fn reset_request_hands_out_a_token_of_36_characters() {
    let repository = registered();
    let mut tokens = ResetTokenStore::new();
    let request = AuthService::forgot_password("ann@example.org", &repository, &mut tokens);
    let delivery = request.delivery.unwrap();
    assert_eq!(delivery.email, "ann@example.org");
    assert_eq!(delivery.token.len(), 36);
    assert_eq!(tokens.len(), 1);
    assert_eq!(tokens.all()[0].token, delivery.token);
}

#[test]
fn password_update_for_no_account_is_refused() {
    let mut repository = registered();
    let body =
        UpdatePasswordRequest { email: "nobody".to_string(), new_password: PASSWORD.to_string() };
    assert_eq!(AuthService::update_password(body, &mut repository), Err(AuthServiceError::UserNotFound));
    assert!(AuthService::login("ann", PASSWORD, &repository, &issuer()).is_ok());
}

#[test]
fn reset_request_is_answered_the_same_for_every_address() {
    let repository = registered();
    let mut tokens = ResetTokenStore::new();
    let known = AuthService::forgot_password("ann@example.org", &repository, &mut tokens);
    let unknown = AuthService::forgot_password("nobody@example.org", &repository, &mut tokens);
    assert_eq!(known.response.message, RESET_REQUESTED);
    assert_eq!(unknown.response.message, known.response.message);
    let delivery = known.delivery.unwrap();
    assert_eq!(delivery.email, "ann@example.org");
    assert_eq!(delivery.token.len(), 36);
    assert!(unknown.delivery.is_none());
    assert_eq!(tokens.len(), 1);
    let row = tokens.find_valid(&delivery.token, now_seconds()).unwrap();
    assert_eq!(row.user_id, 1);
    assert_eq!(row.expires_at, row.created_at + 3600);
}

#[test]
fn reset_request_goes_by_the_email_address_only() {
    let repository = registered();
    let mut tokens = ResetTokenStore::new();
    let by_login = AuthService::forgot_password("ann", &repository, &mut tokens);
    assert!(by_login.delivery.is_none());
    assert_eq!(tokens.len(), 0);
}

#[test]
fn reset_sets_the_new_password_once() {
    let mut repository = registered();
    let mut tokens = ResetTokenStore::new();
    tokens.issue_token_at(1, "reset-me".to_string(), 1000).unwrap();
    assert_eq!(
        AuthService::reset_password_at("reset-me", "Zyxwvutsrq9#", &mut repository, &mut tokens, 2000),
        Ok(())
    );
    let issuer = issuer();
    assert!(AuthService::login("ann", "Zyxwvutsrq9#", &repository, &issuer).is_ok());
    assert!(AuthService::login("ann", PASSWORD, &repository, &issuer).is_err());
    assert_eq!(
        AuthService::reset_password_at("reset-me", "Another-pass-5", &mut repository, &mut tokens, 2000),
        Err(AuthServiceError::InvalidToken)
    );
    assert!(AuthService::login("ann", "Zyxwvutsrq9#", &repository, &issuer).is_ok());
}

#[test]
fn reset_with_a_bad_token_changes_nothing() {
    let mut repository = registered();
    let mut tokens = ResetTokenStore::new();
    tokens.issue_token_at(1, "reset-me".to_string(), 1000).unwrap();
    let unknown =
        AuthService::reset_password_at("nothing", "Zyxwvutsrq9#", &mut repository, &mut tokens, 2000);
    let expired =
        AuthService::reset_password_at("reset-me", "Zyxwvutsrq9#", &mut repository, &mut tokens, 4600);
    assert_eq!(unknown, Err(AuthServiceError::InvalidToken));
    assert_eq!(expired, Err(AuthServiceError::InvalidToken));
    assert!(AuthService::login("ann", PASSWORD, &repository, &issuer()).is_ok());
    assert!(!tokens.all()[0].consumed);
}

#[test]
fn reset_with_a_weak_password_uses_the_token_up() {
    let mut repository = registered();
    let mut tokens = ResetTokenStore::new();
    tokens.issue_token_at(1, "reset-me".to_string(), 1000).unwrap();
    assert_eq!(
        AuthService::reset_password_at("reset-me", "weak", &mut repository, &mut tokens, 2000),
        Err(AuthServiceError::InvalidPassword)
    );
    assert!(tokens.all()[0].consumed);
    assert!(AuthService::login("ann", PASSWORD, &repository, &issuer()).is_ok());
    assert_eq!(
        AuthService::reset_password_at("reset-me", "Zyxwvutsrq9#", &mut repository, &mut tokens, 2000),
        Err(AuthServiceError::InvalidToken)
    );
}

#[test]
fn reset_for_an_account_that_is_gone() {
    let mut repository = registered();
    let mut tokens = ResetTokenStore::new();
    tokens.issue_token_at(1, "reset-me".to_string(), 1000).unwrap();
    assert!(repository.delete_user("ann"));
    assert_eq!(
        AuthService::reset_password_at("reset-me", "Zyxwvutsrq9#", &mut repository, &mut tokens, 2000),
        Err(AuthServiceError::UserNotFound)
    );
}

#[test]
fn reset_from_request_to_login() {
    let mut repository = registered();
    let mut tokens = ResetTokenStore::new();
    let delivery =
        AuthService::forgot_password("ann@example.org", &repository, &mut tokens).delivery.unwrap();
    assert_eq!(
        AuthService::reset_password(&delivery.token, "Zyxwvutsrq9#", &mut repository, &mut tokens),
        Ok(())
    );
    assert_eq!(
        AuthService::reset_password(&delivery.token, "Zyxwvutsrq9#", &mut repository, &mut tokens),
        Err(AuthServiceError::InvalidToken)
    );
    assert!(AuthService::login("ann@example.org", "Zyxwvutsrq9#", &repository, &issuer()).is_ok());
}

#[test]
fn response_for_a_login() {
    let user = User {
        id: 1,
        login: "ann".to_string(),
        username: "Ann".to_string(),
        email: "ann@example.org".to_string(),
        password: "h".to_string(),
    };
    let response = AuthResponse::granted("t".to_string(), user, "Login successful");
    assert!(response.success);
    assert_eq!(response.token.as_deref(), Some("t"));
    assert_eq!(response.user.as_ref().unwrap().login, "ann");
    let shown = response.to_login_response();
    assert!(shown.success);
    assert_eq!(shown.token.as_deref(), Some("t"));
    assert_eq!(shown.message.as_deref(), Some("Login successful"));
}

#[test]
fn accounts_are_shown_without_their_passwords() {
    let mut repository = UserRepositoryImpl::new();
    repository.add_user("Ann", "ann", "ann@example.org", "hash-a").unwrap();
    repository.add_user("Bob", "bob", "bob@example.org", "hash-b").unwrap();
    let users = repository.all();
    let one = UserResponse::from_user(&users[0]);
    assert_eq!((one.id, one.username.as_str(), one.login.as_str()), (1, "Ann", "ann"));
    assert_eq!(one.email, "ann@example.org");
    let single = SingleUserResponse::from_user(&users[1]);
    assert_eq!((single.user.id, single.user.login.as_str()), (2, "bob"));
    let all = UsersResponse::from_users(&users);
    assert_eq!(all.users.len(), 2);
    assert_eq!(all.users[0].login, "ann");
    assert_eq!(all.users[1].email, "bob@example.org");
    assert!(UsersResponse::from_users(&Vec::new()).users.is_empty());
}

#[test]
fn messages_and_errors_hold_their_texts() {
    assert_eq!(UserMessageResponse::new("done").message, "done");
    assert_eq!(UserErrorResponse::new("failed").error, "failed");
    assert_eq!(AuthErrorResponse::new("refused").error, "refused");
}

#[test]
fn envelopes_hold_status_message_and_data() {
    let ok = ApiResponse::success("fine", Some(5u32));
    assert_eq!((ok.status.as_str(), ok.message.as_str(), ok.data), ("success", "fine", Some(5)));
    let failed: ApiResponse<u32> = ApiResponse::error("bad", None);
    assert_eq!((failed.status.as_str(), failed.message.as_str(), failed.data), ("error", "bad", None));
    let detailed = DetailedErrorResponse { code: 404, message: "gone".to_string(), details: None };
    assert_eq!(detailed.code, 404);
    let page = PaginatedResponse { items: vec![1u8, 2], total: 10, page: 1, page_size: 2 };
    assert_eq!((page.items.len(), page.total, page.page, page.page_size), (2, 10, 1, 2));
}

#[test]
fn requests_hold_their_fields() {
    let login = LoginRequest { email: "ann@example.org".to_string(), password: "p".to_string() };
    assert_eq!((login.email.as_str(), login.password.as_str()), ("ann@example.org", "p"));
    let delete = DeleteUserRequest { login: "ann".to_string() };
    assert_eq!(delete.login, "ann");
    let create = CreateUserRequest {
        username: "Ann".to_string(),
        login: "ann".to_string(),
        email: "ann@example.org".to_string(),
        password: "p".to_string(),
    };
    assert_eq!(create.username, "Ann");
    let update = UpdateUserRequest { username: None, email: Some("a@b.c".to_string()), password: None };
    assert_eq!(update.email.as_deref(), Some("a@b.c"));
}
