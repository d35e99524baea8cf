use vstd::prelude::*;
use argon2::password_hash::rand_core::OsRng;
use argon2::password_hash::SaltString;
use argon2::{Argon2, PasswordHash, PasswordHasher, PasswordVerifier};

verus! {

/// The fewest characters that a password may have.
pub const MIN_PASSWORD_LEN: usize = 8;

/// The most characters that a password may have and still be certain to be
/// hashed: at four bytes a character it stays within argon2's limit of
/// 0xFFFF_FFFF bytes.
pub const MAX_HASHABLE_PASSWORD_LEN: usize = 0x3fff_ffff;

#[verifier::external_type_specification]
#[verifier::external_body]
pub struct ExPasswordHashError(argon2::password_hash::Error);

/// Whether the text parses as a PHC password-hash string.
pub uninterp spec fn phc_parses(hash: Seq<char>) -> bool;

/// Whether argon2's verifier accepts the password against the PHC string.
pub uninterp spec fn argon2_accepts(hash: Seq<char>, password: Seq<char>) -> bool;

/// The start of the PHC string of an Argon2id hash, version 19 (0x13), made
/// with argon2's default costs: 19 MiB of memory, two passes, one lane.
pub open spec fn argon2id_default_prefix() -> Seq<char> {
    "$argon2id$v=19$m=19456,t=2,p=1$"@
}

/// Relies on argon2's `PasswordHasher::hash_password` with `Argon2::default()`
/// and a random salt from `SaltString::generate(OsRng)`:
/// - it fails only on a password over 0xFFFF_FFFF bytes (`verify_inputs`); the
///   salt generation panics, rather than fail, when the OS has no entropy;
/// - the PHC string that it renders starts with the algorithm `argon2id`, the
///   version 19 and the default costs, followed by the salt and the output;
/// - that string parses again, and argon2's verifier accepts the same
///   password against it, as verification recomputes the hash from the salt
///   and the parameters stored in the string.
/// The salt is random: nothing else is stated.
#[verifier::external_body]
fn argon2_hash(password: &str) -> (r: Result<String, argon2::password_hash::Error>)
    ensures
        password@.len() <= MAX_HASHABLE_PASSWORD_LEN ==> r is Ok,
        r matches Ok(h) ==> {
            &&& argon2id_default_prefix().is_prefix_of(h@)
            &&& phc_parses(h@)
            &&& argon2_accepts(h@, password@)
        },
{
    let salt = SaltString::generate(&mut OsRng);
    Argon2::default().hash_password(password.as_bytes(), &salt).map(|h| h.to_string())
}

/// Relies on `PasswordHash::new`, which fails exactly on malformed PHC strings,
/// and on argon2's `PasswordVerifier::verify_password`, whose success is the
/// verdict.
#[verifier::external_body]
fn argon2_verify(hash: &str, password: &str) -> (r: Result<bool, argon2::password_hash::Error>)
    ensures
        r is Err <==> !phc_parses(hash@),
        r matches Ok(b) ==> b == argon2_accepts(hash@, password@),
{
    let parsed = PasswordHash::new(hash)?;
    Ok(Argon2::default().verify_password(password.as_bytes(), &parsed).is_ok())
}

/// Why a credential operation could not be carried out.
#[derive(Clone, Copy, Debug, PartialEq, Eq, Structural)]
pub enum CredentialError {
    /// The hash could not be computed.
    HashingError,
    /// The stored hash is malformed, so no verification was attempted.
    VerificationError,
}

/// `hash` is a stored credential for `password`: a well-formed Argon2id
/// (version 19) PHC string, with its costs written in it, that verification
/// accepts for the password.
pub open spec fn hashes_password(hash: Seq<char>, password: Seq<char>) -> bool {
    &&& argon2id_default_prefix().is_prefix_of(hash)
    &&& phc_parses(hash)
    &&& argon2_accepts(hash, password)
}

/// The outcome of verifying `password` against the stored `hash`.
pub open spec fn verification(hash: Seq<char>, password: Seq<char>) -> Result<bool, CredentialError> {
    if phc_parses(hash) {
        Ok(argon2_accepts(hash, password))
    } else {
        Err(CredentialError::VerificationError)
    }
}

/// Whether the password is long enough to be accepted.
pub fn password_is_strong(password: &str) -> (r: bool)
    ensures
        r == (password@.len() >= MIN_PASSWORD_LEN),
{
    password.unicode_len() >= MIN_PASSWORD_LEN
}

/// Hashes a password with a memory-hard function and a fresh random salt, into
/// a self-describing string. Every password of up to
/// `MAX_HASHABLE_PASSWORD_LEN` characters is hashed.
pub fn hash_password(password: &str) -> (r: Result<String, CredentialError>)
    ensures
        password@.len() <= MAX_HASHABLE_PASSWORD_LEN ==> r is Ok,
        r matches Ok(h) ==> hashes_password(h@, password@),
        r is Err ==> r == Err::<String, CredentialError>(CredentialError::HashingError),
{
    match argon2_hash(password) {
        Ok(h) => Ok(h),
        Err(_) => Err(CredentialError::HashingError),
    }
}

/// Verifies a password against a stored hash; a malformed hash is an error.
pub fn verify_password(hash: &str, password: &str) -> (r: Result<bool, CredentialError>)
    ensures
        r == verification(hash@, password@),
{
    match argon2_verify(hash, password) {
        Ok(b) => Ok(b),
        Err(_) => Err(CredentialError::VerificationError),
    }
}

/// A hash made from a password verifies that same password.
pub proof fn lemma_hash_verifies(hash: Seq<char>, password: Seq<char>)
    requires
        hashes_password(hash, password),
    ensures
        verification(hash, password) == Ok::<bool, CredentialError>(true),
{
}

} // verus!
