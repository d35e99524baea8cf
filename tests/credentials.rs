use ledger_core::account::{
    check_password_policy, finish_signup, login_outcome, prepare_signup, AccountError,
    InsertOutcome, NewUser, UserRow,
};
use ledger_core::credential::{hash_password, password_is_strong, verify_password, CredentialError};
use ledger_core::session::User;
use ledger_core::time::Timestamp;

fn credentials(username: &str, password: &str) -> NewUser {
    NewUser { username: username.to_string(), password: password.to_string() }
}

fn stored(row: &UserRow) -> User {
    User {
        id: row.id,
        username: row.username.clone(),
        password_hash: row.password_hash.clone(),
        created_at: Timestamp { seconds: 1_700_000_000, nanos: 0 },
    }
}

#[test]
fn hash_then_verify_accepts_same_password() {
    let h = hash_password("correct horse").unwrap();
    assert_ne!(h, "correct horse");
    assert!(h.starts_with("$argon2id$v=19$m=19456,t=2,p=1$"));
    assert_eq!(verify_password(&h, "correct horse"), Ok(true));
}

#[test]
fn hash_then_verify_rejects_other_password() {
    let h = hash_password("correct horse").unwrap();
    assert_eq!(verify_password(&h, "correct horsf"), Ok(false));
    assert_eq!(verify_password(&h, ""), Ok(false));
}

#[test]
fn hashes_of_one_password_are_salted_differently() {
    let a = hash_password("password123").unwrap();
    let b = hash_password("password123").unwrap();
    assert_ne!(a, b);
    assert_eq!(verify_password(&a, "password123"), Ok(true));
    assert_eq!(verify_password(&b, "password123"), Ok(true));
}

#[test]
fn malformed_hash_is_a_verification_error() {
    assert_eq!(verify_password("not a hash", "password123"), Err(CredentialError::VerificationError));
    assert_eq!(verify_password("", "password123"), Err(CredentialError::VerificationError));
}

#[test]
fn password_strength_counts_characters() {
    assert!(!password_is_strong(""));
    assert!(!password_is_strong("1234567"));
    assert!(password_is_strong("12345678"));
    // seven characters, fourteen bytes
    assert!(!password_is_strong("ééééééé"));
    assert!(password_is_strong("éééééééé"));
}

#[test]
fn weak_password_is_refused_before_anything_else() {
    assert_eq!(check_password_policy("short"), Err(AccountError::WeakCredential));
    assert_eq!(check_password_policy("long enough"), Ok(()));
    let r = prepare_signup(&credentials("alice", "short"), 0);
    assert!(matches!(r, Err(AccountError::WeakCredential)));
    // the policy is checked before the username
    let r = prepare_signup(&credentials("alice", "short"), 3);
    assert!(matches!(r, Err(AccountError::WeakCredential)));
}

#[test]
fn taken_username_is_refused() {
    let r = prepare_signup(&credentials("alice", "password123"), 1);
    assert!(matches!(r, Err(AccountError::UsernameTaken)));
}

#[test]
fn concurrent_signup_conflict_maps_to_username_taken() {
    let first = prepare_signup(&credentials("bob", "password123"), 0).unwrap();
    let second = prepare_signup(&credentials("bob", "password456"), 0).unwrap();
    assert_ne!(first.id, second.id);
    assert!(finish_signup(&first, InsertOutcome::Inserted).is_ok());
    assert_eq!(finish_signup(&second, InsertOutcome::UniqueViolation), Err(AccountError::UsernameTaken));
    assert_eq!(finish_signup(&second, InsertOutcome::Failed), Err(AccountError::Unavailable));
}

#[test]
fn signup_then_login_succeeds() {
    let nu = credentials("carol", "s3cret-pass");
    let row = prepare_signup(&nu, 0).unwrap();
    assert_eq!(row.username, "carol");
    assert!(row.password_hash.starts_with("$argon2id$v=19$"));
    assert_ne!(row.password_hash, "s3cret-pass");
    let token = finish_signup(&row, InsertOutcome::Inserted).unwrap();
    assert_eq!(token, uuid::Uuid::from_u128(row.id).to_string());
    let login = login_outcome(&nu, Some(stored(&row))).unwrap();
    assert_eq!(login, token);
}

#[test]
fn login_failures_are_indistinguishable() {
    let nu = credentials("dave", "s3cret-pass");
    let row = prepare_signup(&nu, 0).unwrap();
    let wrong = credentials("dave", "wrong-pass");
    assert_eq!(login_outcome(&wrong, Some(stored(&row))), Err(AccountError::InvalidCredentials));
    assert_eq!(login_outcome(&nu, None), Err(AccountError::InvalidCredentials));
    let mut broken = stored(&row);
    broken.password_hash = "garbage".to_string();
    assert_eq!(login_outcome(&nu, Some(broken)), Err(AccountError::InvalidCredentials));
    let other = credentials("eve", "s3cret-pass");
    assert_eq!(login_outcome(&other, Some(stored(&row))), Err(AccountError::InvalidCredentials));
}

#[test]
fn account_error_statuses() {
    assert_eq!(AccountError::WeakCredential.status(), 400);
    assert_eq!(AccountError::UsernameTaken.status(), 409);
    assert_eq!(AccountError::InvalidCredentials.status(), 401);
    assert_eq!(AccountError::HashingError.status(), 500);
    assert_eq!(AccountError::Unavailable.status(), 500);
    assert_eq!(AccountError::WeakCredential.message(), "Password too short (minimum 8 characters)");
}
