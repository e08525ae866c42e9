use auth_core::auth_errors::AuthServiceError;
use auth_core::clock::now_seconds;
use auth_core::user_password_reset::{PasswordResetToken, ResetTokenStore, RESET_TOKEN_TTL_SECONDS};

#[test]
fn reset_token_lives_an_hour() {
    assert_eq!(RESET_TOKEN_TTL_SECONDS, 3600);
}

#[test]
fn new_store_is_empty() {
    let store = ResetTokenStore::new();
    assert_eq!(store.len(), 0);
    assert!(store.all().is_empty());
}

#[test]
fn issued_token_is_stored_unused_for_an_hour() {
    let mut store = ResetTokenStore::new();
    let value = store.issue_token_at(7, "abc".to_string(), 1000).unwrap();
    assert_eq!(value, "abc");
    assert_eq!(store.len(), 1);
    let row = store.find_valid("abc", 1000).unwrap();
    assert_eq!(row.id, 1);
    assert_eq!(row.user_id, 7);
    assert_eq!(row.token, "abc");
    assert_eq!(row.created_at, 1000);
    assert_eq!(row.expires_at, 4600);
    assert!(!row.consumed);
}

#[test]
fn token_is_usable_before_it_expires_only() {
    let mut store = ResetTokenStore::new();
    store.issue_token_at(7, "abc".to_string(), 1000).unwrap();
    assert!(store.find_valid("abc", 0).is_some());
    assert!(store.find_valid("abc", 4599).is_some());
    assert!(store.find_valid("abc", 4600).is_none());
    assert!(store.find_valid("abc", 4601).is_none());
    assert!(store.find_valid("abd", 1000).is_none());
    assert_eq!(store.len(), 1);
}

#[test]
fn token_is_used_up_once() {
    let mut store = ResetTokenStore::new();
    store.issue_token_at(7, "abc".to_string(), 1000).unwrap();
    assert_eq!(store.verify_and_consume("abc", 2000), Ok(7));
    assert_eq!(store.verify_and_consume("abc", 2000), Err(AuthServiceError::InvalidToken));
    assert_eq!(store.verify_and_consume("abc", 1000), Err(AuthServiceError::InvalidToken));
    assert!(store.find_valid("abc", 2000).is_none());
    let rows = store.all();
    assert_eq!(rows.len(), 1);
    assert!(rows[0].consumed);
    assert_eq!(rows[0].expires_at, 4600);
}

#[test]
fn of_many_attempts_exactly_one_is_accepted() {
    let mut store = ResetTokenStore::new();
    store.issue_token_at(7, "abc".to_string(), 1000).unwrap();
    store.issue_token_at(8, "other".to_string(), 1000).unwrap();
    let mut accepted = 0;
    let mut refused = 0;
    for attempt in 0..50u64 {
        match store.verify_and_consume("abc", 1000 + attempt) {
            Ok(user) => {
                assert_eq!(user, 7);
                accepted += 1;
            },
            Err(e) => {
                assert_eq!(e, AuthServiceError::InvalidToken);
                refused += 1;
            },
        }
    }
    assert_eq!(accepted, 1);
    assert_eq!(refused, 49);
    assert_eq!(store.verify_and_consume("other", 1000), Ok(8));
}

#[test]
fn expired_token_is_refused_and_stays_unused() {
    let mut store = ResetTokenStore::new();
    store.issue_token_at(7, "abc".to_string(), 1000).unwrap();
    assert_eq!(store.verify_and_consume("abc", 4600), Err(AuthServiceError::InvalidToken));
    assert!(!store.all()[0].consumed);
    assert_eq!(store.verify_and_consume("abc", 4599), Ok(7));
}

#[test]
fn unknown_token_is_refused() {
    let mut store = ResetTokenStore::new();
    assert_eq!(store.verify_and_consume("abc", 0), Err(AuthServiceError::InvalidToken));
    store.issue_token_at(7, "abc".to_string(), 1000).unwrap();
    assert_eq!(store.verify_and_consume("ab", 1000), Err(AuthServiceError::InvalidToken));
    assert_eq!(store.verify_and_consume("", 1000), Err(AuthServiceError::InvalidToken));
    assert_eq!(store.verify_and_consume("ABC", 1000), Err(AuthServiceError::InvalidToken));
    assert!(!store.all()[0].consumed);
}

#[test]
fn consume_tells_whether_the_token_was_usable() {
    let mut store = ResetTokenStore::new();
    store.issue_token_at(7, "abc".to_string(), 1000).unwrap();
    assert!(!store.consume("nothing", 1000));
    assert!(store.consume("abc", 1000));
    assert!(!store.consume("abc", 1000));
}

#[test]
fn value_is_stored_once_only() {
    let mut store = ResetTokenStore::new();
    store.issue_token_at(7, "abc".to_string(), 1000).unwrap();
    assert_eq!(
        store.issue_token_at(8, "abc".to_string(), 2000),
        Err(AuthServiceError::DatabaseError)
    );
    assert_eq!(store.insert(8, "abc".to_string(), 0, 10), Err(AuthServiceError::DatabaseError));
    assert_eq!(store.len(), 1);
    assert_eq!(store.all()[0].user_id, 7);
    assert_eq!(store.verify_and_consume("abc", 1000), Ok(7));
    assert_eq!(
        store.issue_token_at(8, "abc".to_string(), 2000),
        Err(AuthServiceError::DatabaseError)
    );
}

#[test]
fn token_that_cannot_expire_in_time_is_not_stored() {
    let mut store = ResetTokenStore::new();
    assert_eq!(
        store.issue_token_at(7, "abc".to_string(), u64::MAX - 3599),
        Err(AuthServiceError::DatabaseError)
    );
    assert_eq!(store.len(), 0);
    assert!(store.issue_token_at(7, "abc".to_string(), u64::MAX - 3600).is_ok());
    assert_eq!(store.all()[0].expires_at, u64::MAX);
}

#[test]
fn ids_count_up() {
    let mut store = ResetTokenStore::new();
    store.issue_token_at(7, "a".to_string(), 0).unwrap();
    store.issue_token_at(7, "b".to_string(), 0).unwrap();
    assert!(store.delete_by_token("a"));
    store.insert(9, "c".to_string(), 5, 6).unwrap();
    let rows = store.all();
    assert_eq!(rows.len(), 2);
    assert_eq!((rows[0].id, rows[0].token.as_str()), (2, "b"));
    assert_eq!((rows[1].id, rows[1].token.as_str()), (3, "c"));
    assert_eq!((rows[1].user_id, rows[1].created_at, rows[1].expires_at), (9, 5, 6));
    assert!(!rows[1].consumed);
}

#[test]
fn delete_removes_the_token() {
    let mut store = ResetTokenStore::new();
    store.issue_token_at(7, "a".to_string(), 0).unwrap();
    store.issue_token_at(8, "b".to_string(), 0).unwrap();
    store.issue_token_at(9, "c".to_string(), 0).unwrap();
    assert!(!store.delete_by_token("x"));
    assert_eq!(store.len(), 3);
    assert!(store.delete_by_token("b"));
    assert!(!store.delete_by_token("b"));
    let rows = store.all();
    assert_eq!(rows.len(), 2);
    assert_eq!(rows[0].token, "a");
    assert_eq!(rows[1].token, "c");
    assert_eq!(store.verify_and_consume("b", 0), Err(AuthServiceError::InvalidToken));
}

#[test]
fn token_issued_now_has_a_fresh_value() {
    let mut store = ResetTokenStore::new();
    let before = now_seconds();
    let first = store.issue_token(7).unwrap();
    let second = store.issue_token(7).unwrap();
    let after = now_seconds();
    assert_ne!(first, second);
    assert_eq!(first.len(), 36);
    assert_eq!(first.matches('-').count(), 4);
    let rows = store.all();
    assert_eq!(rows.len(), 2);
    assert_eq!(rows[0].token, first);
    assert!(before <= rows[0].created_at && rows[0].created_at <= after);
    assert_eq!(rows[0].expires_at, rows[0].created_at + 3600);
    assert_eq!(store.verify_and_consume(&first, after), Ok(7));
}

#[test]
fn store_that_holds_no_value_of_that_length_issues_the_token() {
    let mut store = ResetTokenStore::from_tokens(vec![stored(5, "short", false)]).unwrap();
    let value = PasswordResetToken::create_token(&mut store, 9).unwrap();
    assert_eq!(value.len(), 36);
    assert_eq!(store.len(), 2);
    assert_eq!(store.all()[1].id, 6);
    assert_eq!(store.all()[1].user_id, 9);
    assert!(!store.all()[1].consumed);
}

#[test]
fn functions_of_the_token_type() {
    let mut store = ResetTokenStore::new();
    let value = PasswordResetToken::create_token(&mut store, 5).unwrap();
    let found = PasswordResetToken::check_token(&store, &value).unwrap();
    assert_eq!(found.user_id, 5);
    assert_eq!(found.token, value);
    assert!(PasswordResetToken::check_token(&store, "nothing").is_none());
    assert_eq!(PasswordResetToken::all(&store).len(), 1);
    assert!(PasswordResetToken::delete_by_token(&mut store, &value));
    assert!(!PasswordResetToken::delete_by_token(&mut store, &value));
    assert!(PasswordResetToken::all(&store).is_empty());
}

#[test]
fn a_copy_of_a_token_holds_the_same() {
    let token = PasswordResetToken {
        id: 3,
        user_id: 4,
        token: "abc".to_string(),
        created_at: 10,
        expires_at: 20,
        consumed: false,
    };
    let copy = token.duplicate();
    assert_eq!((copy.id, copy.user_id, copy.token.as_str()), (3, 4, "abc"));
    assert_eq!((copy.created_at, copy.expires_at, copy.consumed), (10, 20, false));
    assert!(token.is_usable_at(19));
    assert!(!token.is_usable_at(20));
    let used = PasswordResetToken { consumed: true, ..copy };
    assert!(!used.is_usable_at(0));
}

fn stored(id: i32, value: &str, consumed: bool) -> PasswordResetToken {
    PasswordResetToken {
        id,
        user_id: 9,
        token: value.to_string(),
        created_at: 100,
        expires_at: 200,
        consumed,
    }
}

#[test]
fn store_is_restored_from_its_tokens() {
    let mut store =
        ResetTokenStore::from_tokens(vec![stored(4, "a", true), stored(6, "b", false)]).unwrap();
    assert_eq!(store.len(), 2);
    assert_eq!(store.verify_and_consume("a", 150), Err(AuthServiceError::InvalidToken));
    assert_eq!(store.verify_and_consume("b", 150), Ok(9));
    store.insert(1, "c".to_string(), 0, 1).unwrap();
    assert_eq!(store.all()[2].id, 7);
    let mut empty = ResetTokenStore::from_tokens(Vec::new()).unwrap();
    empty.insert(1, "c".to_string(), 0, 1).unwrap();
    assert_eq!(empty.all()[0].id, 1);
}

#[test]
fn store_is_not_restored_from_tokens_that_collide() {
    assert!(ResetTokenStore::from_tokens(vec![stored(1, "a", false), stored(2, "a", true)]).is_none());
    assert!(ResetTokenStore::from_tokens(vec![stored(2, "a", false), stored(1, "b", false)]).is_none());
    assert!(ResetTokenStore::from_tokens(vec![stored(1, "a", false), stored(1, "b", false)]).is_none());
    assert!(ResetTokenStore::from_tokens(vec![
        stored(1, "a", false),
        stored(2, "b", false),
        stored(3, "a", false)
    ])
    .is_none());
}

#[test]
fn ids_that_have_run_out_stop_new_tokens() {
    let mut store = ResetTokenStore::from_tokens(vec![stored(i32::MAX, "a", false)]).unwrap();
    assert_eq!(store.insert(1, "b".to_string(), 0, 1), Err(AuthServiceError::DatabaseError));
    assert_eq!(store.issue_token(1), Err(AuthServiceError::DatabaseError));
    assert_eq!(store.len(), 1);
}
