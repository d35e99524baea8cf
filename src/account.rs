use vstd::prelude::*;
use crate::credential::{
    hash_password, hashes_password, lemma_hash_verifies, password_is_strong, verification,
    verify_password, CredentialError,
    MAX_HASHABLE_PASSWORD_LEN, MIN_PASSWORD_LEN,
};
use crate::session::{random_user_id, session_token, uuid_text, User};

verus! {

/// Credentials as submitted for signup or login.
pub struct NewUser {
    pub username: String,
    pub password: String,
}

/// A user row ready to be inserted; the store stamps its creation time.
pub struct UserRow {
    pub id: u128,
    pub username: String,
    pub password_hash: String,
}

/// Why a signup or login was refused.
#[derive(Clone, Copy, Debug, PartialEq, Eq, Structural)]
pub enum AccountError {
    /// The password is shorter than the minimum.
    WeakCredential,
    /// Another user already has this username.
    UsernameTaken,
    /// Unknown username or wrong password; the two are not told apart.
    InvalidCredentials,
    /// The password could not be hashed.
    HashingError,
    /// The store failed.
    Unavailable,
}

impl AccountError {
    /// The HTTP status of the error.
    pub open spec fn spec_status(self) -> u16 {
        match self {
            AccountError::WeakCredential => 400,
            AccountError::UsernameTaken => 409,
            AccountError::InvalidCredentials => 401,
            AccountError::HashingError => 500,
            AccountError::Unavailable => 500,
        }
    }

    /// The HTTP status of the error.
    pub fn status(&self) -> (r: u16)
        ensures
            r == self.spec_status(),
    {
        match self {
            AccountError::WeakCredential => 400,
            AccountError::UsernameTaken => 409,
            AccountError::InvalidCredentials => 401,
            AccountError::HashingError => 500,
            AccountError::Unavailable => 500,
        }
    }

    /// The message reported with the error.
    pub fn message(&self) -> (r: &'static str)
        ensures
            r@ == match *self {
                AccountError::WeakCredential => "Password too short (minimum 8 characters)"@,
                AccountError::UsernameTaken => "Username already taken"@,
                AccountError::InvalidCredentials => "Invalid credentials"@,
                AccountError::HashingError => "Failed to hash password"@,
                AccountError::Unavailable => "Failed to create user"@,
            },
    {
        match self {
            AccountError::WeakCredential => "Password too short (minimum 8 characters)",
            AccountError::UsernameTaken => "Username already taken",
            AccountError::InvalidCredentials => "Invalid credentials",
            AccountError::HashingError => "Failed to hash password",
            AccountError::Unavailable => "Failed to create user",
        }
    }
}

/// The checks that a signup passes before anything is written: the password
/// policy first, then the username's uniqueness, given how many users already
/// bear it.
pub open spec fn signup_admission(password: Seq<char>, existing: i64) -> Result<(), AccountError> {
    if password.len() < MIN_PASSWORD_LEN {
        Err(AccountError::WeakCredential)
    } else if existing > 0 {
        Err(AccountError::UsernameTaken)
    } else {
        Ok(())
    }
}

/// Enforces the password policy.
pub fn check_password_policy(password: &str) -> (r: Result<(), AccountError>)
    ensures
        r is Ok <==> password@.len() >= MIN_PASSWORD_LEN,
        r is Err ==> r == Err::<(), AccountError>(AccountError::WeakCredential),
{
    if password_is_strong(password) {
        Ok(())
    } else {
        Err(AccountError::WeakCredential)
    }
}

/// Admits a signup and builds the row to insert: a fresh random id, the
/// username, and a hash of the password. `existing` is how many users already
/// bear the username. No row comes out of a refused signup, and an admitted
/// one yields its row.
pub fn prepare_signup(new_user: &NewUser, existing: i64) -> (r: Result<UserRow, AccountError>)
    ensures
        signup_admission(new_user.password@, existing) is Ok && new_user.password@.len()
            <= MAX_HASHABLE_PASSWORD_LEN ==> r is Ok,
        signup_admission(new_user.password@, existing) is Err ==> r == Err::<UserRow, AccountError>(
            signup_admission(new_user.password@, existing)->Err_0,
        ),
        signup_admission(new_user.password@, existing) is Ok ==> match r {
            Ok(row) => row.username@ == new_user.username@ && hashes_password(
                row.password_hash@,
                new_user.password@,
            ),
            Err(e) => e == AccountError::HashingError,
        },
{
    check_password_policy(new_user.password.as_str())?;
    if existing > 0 {
        return Err(AccountError::UsernameTaken);
    }
    let password_hash = match hash_password(new_user.password.as_str()) {
        Ok(h) => h,
        Err(_) => return Err(AccountError::HashingError),
    };
    let id = random_user_id();
    Ok(UserRow { id, username: new_user.username.clone(), password_hash })
}

/// What the store answered to the insertion of a user row.
#[derive(Clone, Copy, Debug, PartialEq, Eq, Structural)]
pub enum InsertOutcome {
    Inserted,
    /// The username's uniqueness constraint refused the row: another signup
    /// took the name between the check and the insertion.
    UniqueViolation,
    Failed,
}

/// Ends a signup once the row insertion was attempted: the session token of
/// the new user, or the error.
pub fn finish_signup(row: &UserRow, outcome: InsertOutcome) -> (r: Result<String, AccountError>)
    ensures
        match outcome {
            InsertOutcome::Inserted => r matches Ok(token) && token@ == uuid_text(row.id),
            InsertOutcome::UniqueViolation => r == Err::<String, AccountError>(
                AccountError::UsernameTaken,
            ),
            InsertOutcome::Failed => r == Err::<String, AccountError>(AccountError::Unavailable),
        },
{
    match outcome {
        InsertOutcome::Inserted => Ok(session_token(row.id)),
        InsertOutcome::UniqueViolation => Err(AccountError::UsernameTaken),
        InsertOutcome::Failed => Err(AccountError::Unavailable),
    }
}

/// Whom a login with these credentials authenticates, given the user row that
/// the username lookup found.
pub open spec fn login_decision(
    username: Seq<char>,
    password: Seq<char>,
    record: Option<User>,
) -> Result<u128, AccountError> {
    match record {
        Some(u) => if u.username@ == username && verification(u.password_hash@, password) == Ok::<
            bool,
            CredentialError,
        >(true) {
            Ok(u.id)
        } else {
            Err(AccountError::InvalidCredentials)
        },
        None => Err(AccountError::InvalidCredentials),
    }
}

/// Decides a login from the user row found under the submitted username: the
/// session token of that user when the password verifies, and otherwise the
/// same `InvalidCredentials` whatever went wrong.
pub fn login_outcome(credentials: &NewUser, record: Option<User>) -> (r: Result<String, AccountError>)
    ensures
        match login_decision(credentials.username@, credentials.password@, record) {
            Ok(id) => r matches Ok(token) && token@ == uuid_text(id),
            Err(e) => r == Err::<String, AccountError>(e),
        },
{
    match record {
        None => Err(AccountError::InvalidCredentials),
        Some(u) => {
            if u.username != credentials.username {
                return Err(AccountError::InvalidCredentials);
            }
            match verify_password(u.password_hash.as_str(), credentials.password.as_str()) {
                Ok(true) => Ok(session_token(u.id)),
                _ => Err(AccountError::InvalidCredentials),
            }
        },
    }
}

/// A signup that was admitted and stored lets the same credentials log in: the
/// stored row, found under the username, authenticates its own user.
pub proof fn lemma_signup_then_login(new_user: NewUser, existing: i64, row: UserRow, stored: User)
    requires
        signup_admission(new_user.password@, existing) is Ok,
        row.username@ == new_user.username@,
        hashes_password(row.password_hash@, new_user.password@),
        stored.id == row.id,
        stored.username@ == row.username@,
        stored.password_hash@ == row.password_hash@,
    ensures
        login_decision(new_user.username@, new_user.password@, Some(stored)) == Ok::<
            u128,
            AccountError,
        >(row.id),
{
    lemma_hash_verifies(row.password_hash@, new_user.password@);
}

} // verus!
